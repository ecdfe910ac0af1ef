//! Directions, speed classes, input snapshots, and the chart of timed notes.

use vstd::prelude::*;
use crate::consts::{
    ARROW_JOURNEY_DISTANCE, ARROW_JOURNEY_SPEED, MAX_SESSION_TIME_MS,
};

verus! {

/// One of the four travel lanes; each maps to a fixed lateral offset, a fixed
/// display rotation, and a pair of accepted input keys.
#[derive(Copy, Clone, Debug, PartialEq, Eq, Structural)]
pub enum ArrowDirection {
    Up,
    Down,
    Left,
    Right,
}

/// A key the game reads; the primary arrow keys plus their letter alternates.
#[derive(Copy, Clone, Debug, PartialEq, Eq, Structural)]
pub enum GameKey {
    ArrowUp,
    LetterW,
    ArrowDown,
    LetterS,
    ArrowLeft,
    LetterA,
    ArrowRight,
    LetterD,
}

/// The keys freshly pressed this frame (pressed now, not merely held), as the
/// input collaborator reports them once per frame.
pub struct InputSnapshot {
    pub fresh: Vec<GameKey>,
}

impl InputSnapshot {
    /// A frame with no fresh presses.
    pub fn empty() -> (snapshot: InputSnapshot)
        ensures
            snapshot.fresh@ =~= Seq::<GameKey>::empty(),
    {
        InputSnapshot { fresh: Vec::new() }
    }

    /// Whether `key` was freshly pressed this frame.
    pub fn just_pressed(&self, key: GameKey) -> (pressed: bool)
        ensures
            pressed == self.fresh@.contains(key),
    {
        let mut i: usize = 0;
        while i < self.fresh.len()
            invariant
                i <= self.fresh.len(),
                forall|j: int| 0 <= j < i ==> self.fresh@[j] != key,
            decreases self.fresh.len() - i,
        {
            if self.fresh[i] == key {
                return true;
            }
            i = i + 1;
        }
        false
    }
}

impl ArrowDirection {
    /// The primary and alternate key accepted for this direction.
    pub open spec fn spec_keys(self) -> (GameKey, GameKey) {
        match self {
            ArrowDirection::Up => (GameKey::ArrowUp, GameKey::LetterW),
            ArrowDirection::Down => (GameKey::ArrowDown, GameKey::LetterS),
            ArrowDirection::Left => (GameKey::ArrowLeft, GameKey::LetterA),
            ArrowDirection::Right => (GameKey::ArrowRight, GameKey::LetterD),
        }
    }

    /// Whether `key` belongs to this direction's accepted key set.
    pub open spec fn spec_accepts(self, key: GameKey) -> bool {
        key == self.spec_keys().0 || key == self.spec_keys().1
    }

    /// Whether some accepted key of this direction is among the fresh presses.
    pub open spec fn spec_key_just_pressed(self, fresh: Seq<GameKey>) -> bool {
        fresh.contains(self.spec_keys().0) || fresh.contains(self.spec_keys().1)
    }

    /// The accepted keys, as executable values.
    pub fn keys(&self) -> (keys: (GameKey, GameKey))
        ensures
            keys == self.spec_keys(),
    {
        match self {
            ArrowDirection::Up => (GameKey::ArrowUp, GameKey::LetterW),
            ArrowDirection::Down => (GameKey::ArrowDown, GameKey::LetterS),
            ArrowDirection::Left => (GameKey::ArrowLeft, GameKey::LetterA),
            ArrowDirection::Right => (GameKey::ArrowRight, GameKey::LetterD),
        }
    }

    /// Whether the snapshot shows a fresh press of one of this direction's
    /// accepted keys.
    pub fn key_just_pressed(&self, input: &InputSnapshot) -> (pressed: bool)
        ensures
            pressed == self.spec_key_just_pressed(input.fresh@),
    {
        let (primary, alternate) = self.keys();
        input.just_pressed(primary) || input.just_pressed(alternate)
    }

    /// Fixed display rotation of this direction, in degrees.
    pub open spec fn spec_rotation(self) -> int {
        match self {
            ArrowDirection::Up => 90,
            ArrowDirection::Down => -90,
            ArrowDirection::Left => 180,
            ArrowDirection::Right => 0,
        }
    }

    /// Fixed display rotation of this direction, in degrees.
    pub fn rotation(&self) -> (degrees: i64)
        ensures
            degrees == self.spec_rotation(),
    {
        match self {
            ArrowDirection::Up => 90,
            ArrowDirection::Down => -90,
            ArrowDirection::Left => 180,
            ArrowDirection::Right => 0,
        }
    }

    /// Fixed lateral offset of this direction's lane, in milliunits.
    pub open spec fn spec_y(self) -> int {
        match self {
            ArrowDirection::Up => 150_000,
            ArrowDirection::Down => 50_000,
            ArrowDirection::Left => -50_000,
            ArrowDirection::Right => -150_000,
        }
    }

    /// Fixed lateral offset of this direction's lane, in milliunits.
    pub fn y(&self) -> (offset: i64)
        ensures
            offset == self.spec_y(),
    {
        match self {
            ArrowDirection::Up => 150_000,
            ArrowDirection::Down => 50_000,
            ArrowDirection::Left => -50_000,
            ArrowDirection::Right => -150_000,
        }
    }
}

/// One of three speed classes; each maps to a multiplier on the base travel
/// speed.
#[derive(Copy, Clone, Debug, PartialEq, Eq, Structural)]
pub enum Speed {
    Slow,
    Medium,
    Fast,
}

impl Speed {
    /// The multiplier of this class, in thousandths (one, six fifths, three
    /// halves).
    pub open spec fn spec_multiplier(self) -> int {
        match self {
            Speed::Slow => 1_000,
            Speed::Medium => 1_200,
            Speed::Fast => 1_500,
        }
    }

    /// The multiplier of this class, in thousandths.
    pub fn multiplier(&self) -> (thousandths: i64)
        ensures
            thousandths == self.spec_multiplier(),
    {
        match self {
            Speed::Slow => 1_000,
            Speed::Medium => 1_200,
            Speed::Fast => 1_500,
        }
    }

    /// Travel speed of this class: the base speed scaled by the multiplier,
    /// in milliunits per millisecond.
    pub open spec fn spec_value(self) -> int {
        ARROW_JOURNEY_SPEED * self.spec_multiplier() / 1_000
    }

    /// Travel speed of this class, in milliunits per millisecond.
    pub fn value(&self) -> (speed_value: i64)
        ensures
            speed_value == self.spec_value(),
    {
        ARROW_JOURNEY_SPEED * self.multiplier() / 1_000
    }
}

/// Bounds on the speed value of every class.
pub proof fn lemma_speed_value_bounds(speed: Speed)
    ensures
        0 < speed.spec_value() <= crate::consts::MAX_ARROW_SPEED_VALUE,
{
    match speed {
        Speed::Slow => assert(speed.spec_value() == 800),
        Speed::Medium => assert(speed.spec_value() == 960),
        Speed::Fast => assert(speed.spec_value() == 1_200),
    }
}

/// A chart entry: the instant the note must become a live arrow, and the
/// speed class and direction that arrow travels with.
#[derive(Copy, Clone, Debug, PartialEq, Eq, Structural)]
pub struct ArrowTime {
    pub spawn_time: i64,
    pub speed: Speed,
    pub direction: ArrowDirection,
}

impl ArrowTime {
    /// Builds a note that, travelling at its class speed from the journey
    /// start, arrives at the target at `click_time_ms`: its spawn time is the
    /// click time minus the travel time over the journey distance.
    pub fn new(click_time_ms: i64, speed: Speed, direction: ArrowDirection) -> (note: ArrowTime)
        requires
            -MAX_SESSION_TIME_MS <= click_time_ms <= MAX_SESSION_TIME_MS,
        ensures
            note.spawn_time == click_time_ms - ARROW_JOURNEY_DISTANCE as int / speed.spec_value(),
            note.speed == speed,
            note.direction == direction,
    {
        let speed_value = speed.value();
        proof {
            lemma_speed_value_bounds(speed);
        }
        let travel_time_ms = ARROW_JOURNEY_DISTANCE / speed_value;
        ArrowTime { spawn_time: click_time_ms - travel_time_ms, speed, direction }
    }
}

/// Whether a chart is ordered ascending (non-decreasing) by spawn time, the
/// load-time invariant the scheduler's early exit relies on.
pub open spec fn spec_chart_sorted(notes: Seq<ArrowTime>) -> bool {
    forall|i: int, j: int|
        0 <= i <= j < notes.len() ==> notes[i].spawn_time <= notes[j].spawn_time
}

/// A chart rejected at load time because its notes are not ordered ascending
/// by spawn time: the note at `index` spawns earlier than its predecessor.
#[derive(Copy, Clone, Debug, PartialEq, Eq, Structural)]
pub struct ChartOrderingError {
    pub index: usize,
}

/// The chart queue of a running session: notes ordered ascending by spawn
/// time, consumed from the front as they are promoted.
#[derive(Debug)]
pub struct SongConfig {
    pub arrows: Vec<ArrowTime>,
}

impl SongConfig {
    /// The load-time ordering invariant.
    pub open spec fn well_formed(self) -> bool {
        spec_chart_sorted(self.arrows@)
    }

    /// Validates a list of notes as a chart: succeeds exactly when the notes
    /// are ordered ascending by spawn time, and otherwise reports the first
    /// position that breaks the order.
    pub fn from_notes(notes: Vec<ArrowTime>) -> (chart: Result<SongConfig, ChartOrderingError>)
        ensures
            chart is Ok <==> spec_chart_sorted(notes@),
            chart is Ok ==> chart->Ok_0.arrows@ == notes@,
            chart is Err ==> {
                let index = chart->Err_0.index as int;
                &&& 0 < index < notes@.len()
                &&& notes@[index - 1].spawn_time > notes@[index].spawn_time
            },
    {
        let n = notes.len();
        let mut i: usize = 1;
        while i < n
            invariant
                1 <= i,
                n == notes@.len(),
                forall|p: int, q: int|
                    0 <= p <= q < i ==> notes@[p].spawn_time <= notes@[q].spawn_time,
            decreases n - i,
        {
            if notes[i - 1].spawn_time > notes[i].spawn_time {
                proof {
                    assert(notes@[i - 1].spawn_time > notes@[i as int].spawn_time);
                    assert(!spec_chart_sorted(notes@));
                }
                return Err(ChartOrderingError { index: i });
            }
            proof {
                assert forall|p: int, q: int|
                    0 <= p <= q < i + 1 implies notes@[p].spawn_time <= notes@[q].spawn_time by {
                    if q < i {
                    } else if p < q {
                        assert(notes@[p].spawn_time <= notes@[i - 1].spawn_time);
                        assert(notes@[i - 1].spawn_time <= notes@[i as int].spawn_time);
                    }
                }
            }
            i = i + 1;
        }
        Ok(SongConfig { arrows: notes })
    }
}

/// The hand-coded example chart: five notes arriving on the first five whole
/// seconds of the song.
pub fn load_config() -> (config: SongConfig)
    ensures
        config.well_formed(),
        config.arrows@.len() == 5,
        config.arrows@[0] == (ArrowTime {
            spawn_time: 250,
            speed: Speed::Slow,
            direction: ArrowDirection::Up,
        }),
        config.arrows@[1] == (ArrowTime {
            spawn_time: 1_250,
            speed: Speed::Slow,
            direction: ArrowDirection::Down,
        }),
        config.arrows@[2] == (ArrowTime {
            spawn_time: 2_250,
            speed: Speed::Slow,
            direction: ArrowDirection::Left,
        }),
        config.arrows@[3] == (ArrowTime {
            spawn_time: 3_375,
            speed: Speed::Medium,
            direction: ArrowDirection::Up,
        }),
        config.arrows@[4] == (ArrowTime {
            spawn_time: 4_500,
            speed: Speed::Fast,
            direction: ArrowDirection::Down,
        }),
{
    let mut notes: Vec<ArrowTime> = Vec::new();
    notes.push(ArrowTime::new(1_000, Speed::Slow, ArrowDirection::Up));
    notes.push(ArrowTime::new(2_000, Speed::Slow, ArrowDirection::Down));
    notes.push(ArrowTime::new(3_000, Speed::Slow, ArrowDirection::Left));
    notes.push(ArrowTime::new(4_000, Speed::Medium, ArrowDirection::Up));
    notes.push(ArrowTime::new(5_000, Speed::Fast, ArrowDirection::Down));
    let config = SongConfig { arrows: notes };
    proof {
        assert(Speed::Medium.spec_value() == 960);
        assert(ARROW_JOURNEY_DISTANCE as int / 960 == 625);
        assert(config.well_formed());
    }
    config
}

} // verus!
