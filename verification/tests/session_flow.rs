use rhythm_core::arrow::VisualCommand;
use rhythm_core::consts::{
    ARROW_CLICK_THRESHOLD, ARROW_JOURNEY_END_POSITION, ARROW_JOURNEY_START_POSITION,
};
use rhythm_core::session::Session;
use rhythm_core::types::{ArrowDirection, ArrowTime, GameKey, InputSnapshot, Speed};

const FRAME_MS: i64 = 16;

fn press(key: GameKey) -> InputSnapshot {
    InputSnapshot { fresh: vec![key] }
}

// One note with an intended arrival at 1.0 s, at the slow class speed, in the
// Up lane; the clock steps frame by frame from zero at roughly one sixtieth
// of a second.
fn one_note_session() -> Session {
    let note = ArrowTime::new(1_000, Speed::Slow, ArrowDirection::Up);
    assert_eq!(note.spawn_time, 250);
    Session::new(vec![note], 0).unwrap()
}

#[test]
fn arrow_appears_only_when_clock_crosses_spawn_time() {
    let mut session = one_note_session();
    let idle = InputSnapshot::empty();
    for frame in 1..=20 {
        let commands = session.advance(FRAME_MS, &idle);
        if frame < 16 {
            // Clock still at or below 240 ms: nothing spawned yet.
            assert!(commands.is_empty());
            assert!(session.arrows.is_empty());
        } else if frame == 16 {
            // The tick from 240 ms to 256 ms crosses the 250 ms spawn time.
            assert_eq!(commands.len(), 1);
            assert_eq!(
                commands[0],
                VisualCommand::Spawn {
                    id: 0,
                    style: Speed::Slow,
                    x: ARROW_JOURNEY_START_POSITION,
                    y: ArrowDirection::Up.y(),
                    rotation: ArrowDirection::Up.rotation(),
                },
            );
            assert_eq!(session.arrows.len(), 1);
            assert!(session.config.arrows.is_empty());
        } else {
            assert!(commands.is_empty());
            assert_eq!(session.arrows.len(), 1);
        }
    }
}

#[test]
fn arrow_sits_in_window_near_its_hit_time_and_a_press_removes_it() {
    let mut session = one_note_session();
    let idle = InputSnapshot::empty();
    for _ in 1..=61 {
        session.advance(FRAME_MS, &idle);
    }
    // 976 ms of song time: the arrow is inside the tolerance window.
    assert_eq!(session.time_ms, 976);
    let position = session.arrows[0].position;
    assert!(ARROW_JOURNEY_END_POSITION - ARROW_CLICK_THRESHOLD <= position);
    assert!(position <= ARROW_JOURNEY_END_POSITION + ARROW_CLICK_THRESHOLD);

    // Pressing Up on the next frame resolves the arrow as a hit.
    let commands = session.advance(FRAME_MS, &press(GameKey::ArrowUp));
    assert_eq!(commands, vec![VisualCommand::Dispose { id: 0 }]);
    assert!(session.arrows.is_empty());

    // Nothing is left to resolve afterwards.
    let commands = session.advance(FRAME_MS, &press(GameKey::ArrowUp));
    assert!(commands.is_empty());
}

#[test]
fn unpressed_arrow_is_discarded_once_it_overshoots() {
    let mut session = one_note_session();
    let idle = InputSnapshot::empty();
    for _ in 1..=77 {
        session.advance(FRAME_MS, &idle);
    }
    // 1232 ms: the arrow is past the window but short of the overshoot bound.
    assert_eq!(session.arrows.len(), 1);
    assert!(session.arrows[0].position > ARROW_JOURNEY_END_POSITION + ARROW_CLICK_THRESHOLD);
    assert!(session.arrows[0].position < 2 * ARROW_JOURNEY_END_POSITION);

    // One more frame carries it to or past twice the target coordinate.
    let commands = session.advance(FRAME_MS, &idle);
    assert_eq!(commands, vec![VisualCommand::Dispose { id: 0 }]);
    assert!(session.arrows.is_empty());
}

#[test]
fn wrong_key_leaves_the_arrow_in_the_window() {
    let mut session = one_note_session();
    let idle = InputSnapshot::empty();
    for _ in 1..=61 {
        session.advance(FRAME_MS, &idle);
    }
    let commands = session.advance(FRAME_MS, &press(GameKey::ArrowLeft));
    assert!(commands.is_empty());
    assert_eq!(session.arrows.len(), 1);
}

#[test]
fn session_clock_and_ids_advance_across_frames() {
    let notes = vec![
        ArrowTime { spawn_time: 10, speed: Speed::Slow, direction: ArrowDirection::Up },
        ArrowTime { spawn_time: 20, speed: Speed::Medium, direction: ArrowDirection::Down },
        ArrowTime { spawn_time: 30, speed: Speed::Fast, direction: ArrowDirection::Left },
    ];
    let mut session = Session::new(notes, 0).unwrap();
    let idle = InputSnapshot::empty();
    session.advance(25, &idle);
    assert_eq!(session.time_ms, 25);
    assert_eq!(session.next_id, 2);
    assert_eq!(session.arrows.len(), 2);
    session.advance(25, &idle);
    assert_eq!(session.time_ms, 50);
    assert_eq!(session.next_id, 3);
    assert_eq!(session.arrows.len(), 3);
    let ids: Vec<u64> = session.arrows.iter().map(|a| a.id).collect();
    assert_eq!(ids, vec![0, 1, 2]);
    let speeds: Vec<i64> = session.arrows.iter().map(|a| a.speed_value).collect();
    assert_eq!(speeds, vec![800, 960, 1_200]);
}

#[test]
fn session_can_start_on_a_negative_clock() {
    let notes = vec![ArrowTime { spawn_time: -2_000, speed: Speed::Slow, direction: ArrowDirection::Right }];
    let mut session = Session::new(notes, -3_000).unwrap();
    assert_eq!(session.time_ms, -3_000);
    let idle = InputSnapshot::empty();
    let commands = session.advance(500, &idle);
    assert!(commands.is_empty());
    let commands = session.advance(500, &idle);
    assert_eq!(commands.len(), 1);
    assert_eq!(session.arrows.len(), 1);
    assert_eq!(session.time_ms, -2_000);
}
