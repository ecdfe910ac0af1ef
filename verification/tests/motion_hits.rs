use rhythm_core::arrow::{despawn_arrows, move_arrows, setup_target_arrows, Arrow};
use rhythm_core::consts::{
    ARROW_CLICK_THRESHOLD, ARROW_JOURNEY_END_POSITION, ARROW_JOURNEY_START_POSITION,
};
use rhythm_core::types::{ArrowDirection, GameKey, InputSnapshot, Speed};

fn arrow_at(position: i64, direction: ArrowDirection) -> Arrow {
    Arrow { id: 1, position, speed_value: 800, direction }
}

fn press(keys: Vec<GameKey>) -> InputSnapshot {
    InputSnapshot { fresh: keys }
}

#[test]
fn position_advances_by_speed_times_elapsed_time() {
    let mut arrows = vec![arrow_at(ARROW_JOURNEY_START_POSITION, ArrowDirection::Up)];
    move_arrows(&mut arrows, 250);
    assert_eq!(arrows[0].position, ARROW_JOURNEY_START_POSITION + 800 * 250);
    assert_eq!(arrows[0].id, 1);
    assert_eq!(arrows[0].speed_value, 800);
    assert_eq!(arrows[0].direction, ArrowDirection::Up);
}

#[test]
fn sub_steps_sum_to_one_big_step() {
    // Euler integration of constant velocity is exact: many small frames land
    // exactly where one large frame does, whatever the granularity.
    let mut stepped = vec![arrow_at(ARROW_JOURNEY_START_POSITION, ArrowDirection::Left)];
    for _ in 0..60 {
        move_arrows(&mut stepped, 16);
    }
    move_arrows(&mut stepped, 40);
    let mut single = vec![arrow_at(ARROW_JOURNEY_START_POSITION, ArrowDirection::Left)];
    move_arrows(&mut single, 60 * 16 + 40);
    assert_eq!(stepped[0].position, single[0].position);
    assert_eq!(single[0].position, ARROW_JOURNEY_START_POSITION + 800 * 1_000);
}

#[test]
fn hit_registers_exactly_at_window_edges() {
    let upper = ARROW_JOURNEY_END_POSITION + ARROW_CLICK_THRESHOLD;
    let lower = ARROW_JOURNEY_END_POSITION - ARROW_CLICK_THRESHOLD;
    let input = press(vec![GameKey::ArrowUp]);

    let mut arrows = vec![arrow_at(upper, ArrowDirection::Up)];
    let disposed = despawn_arrows(&mut arrows, &input);
    assert_eq!(disposed, vec![1]);
    assert!(arrows.is_empty());

    let mut arrows = vec![arrow_at(lower, ArrowDirection::Up)];
    let disposed = despawn_arrows(&mut arrows, &input);
    assert_eq!(disposed, vec![1]);
    assert!(arrows.is_empty());
}

#[test]
fn no_hit_just_outside_the_window() {
    let upper = ARROW_JOURNEY_END_POSITION + ARROW_CLICK_THRESHOLD;
    let lower = ARROW_JOURNEY_END_POSITION - ARROW_CLICK_THRESHOLD;
    let input = press(vec![GameKey::ArrowUp]);

    let mut arrows = vec![arrow_at(upper + 1, ArrowDirection::Up)];
    let disposed = despawn_arrows(&mut arrows, &input);
    assert!(disposed.is_empty());
    assert_eq!(arrows.len(), 1);

    let mut arrows = vec![arrow_at(lower - 1, ArrowDirection::Up)];
    let disposed = despawn_arrows(&mut arrows, &input);
    assert!(disposed.is_empty());
    assert_eq!(arrows.len(), 1);
}

#[test]
fn held_window_arrow_survives_without_fresh_press() {
    let mut arrows = vec![arrow_at(ARROW_JOURNEY_END_POSITION, ArrowDirection::Up)];
    let disposed = despawn_arrows(&mut arrows, &InputSnapshot::empty());
    assert!(disposed.is_empty());
    assert_eq!(arrows.len(), 1);
}

#[test]
fn overshoot_removed_even_with_no_input() {
    let bound = 2 * ARROW_JOURNEY_END_POSITION;
    let mut arrows = vec![arrow_at(bound, ArrowDirection::Down)];
    let disposed = despawn_arrows(&mut arrows, &InputSnapshot::empty());
    assert_eq!(disposed, vec![1]);
    assert!(arrows.is_empty());

    // One milliunit short of the bound it survives.
    let mut arrows = vec![arrow_at(bound - 1, ArrowDirection::Down)];
    let disposed = despawn_arrows(&mut arrows, &InputSnapshot::empty());
    assert!(disposed.is_empty());
    assert_eq!(arrows.len(), 1);
}

#[test]
fn unmatched_key_never_resolves_a_hit() {
    // A fresh press outside the direction's accepted key set never hits,
    // whatever the position.
    let wrong_keys = vec![
        GameKey::ArrowDown,
        GameKey::LetterS,
        GameKey::ArrowLeft,
        GameKey::LetterA,
        GameKey::ArrowRight,
        GameKey::LetterD,
    ];
    for key in wrong_keys {
        let mut arrows = vec![arrow_at(ARROW_JOURNEY_END_POSITION, ArrowDirection::Up)];
        let disposed = despawn_arrows(&mut arrows, &press(vec![key]));
        assert!(disposed.is_empty());
        assert_eq!(arrows.len(), 1);
    }
}

#[test]
fn alternate_key_counts_as_a_hit() {
    let mut arrows = vec![arrow_at(ARROW_JOURNEY_END_POSITION, ArrowDirection::Up)];
    let disposed = despawn_arrows(&mut arrows, &press(vec![GameKey::LetterW]));
    assert_eq!(disposed, vec![1]);
    assert!(arrows.is_empty());
}

#[test]
fn one_press_resolves_all_window_arrows_of_that_direction() {
    let mut arrows = vec![
        arrow_at(ARROW_JOURNEY_END_POSITION - 1_000, ArrowDirection::Up),
        arrow_at(ARROW_JOURNEY_END_POSITION + 1_000, ArrowDirection::Up),
        arrow_at(ARROW_JOURNEY_END_POSITION, ArrowDirection::Down),
    ];
    arrows[1].id = 2;
    arrows[2].id = 3;
    let disposed = despawn_arrows(&mut arrows, &press(vec![GameKey::ArrowUp]));
    assert_eq!(disposed, vec![1, 2]);
    assert_eq!(arrows.len(), 1);
    assert_eq!(arrows[0].id, 3);
}

#[test]
fn direction_key_sets_offsets_and_rotations() {
    let up = ArrowDirection::Up;
    let down = ArrowDirection::Down;
    let left = ArrowDirection::Left;
    let right = ArrowDirection::Right;
    assert_eq!(up.keys(), (GameKey::ArrowUp, GameKey::LetterW));
    assert_eq!(down.keys(), (GameKey::ArrowDown, GameKey::LetterS));
    assert_eq!(left.keys(), (GameKey::ArrowLeft, GameKey::LetterA));
    assert_eq!(right.keys(), (GameKey::ArrowRight, GameKey::LetterD));
    assert_eq!((up.y(), down.y(), left.y(), right.y()), (150_000, 50_000, -50_000, -150_000));
    assert_eq!(
        (up.rotation(), down.rotation(), left.rotation(), right.rotation()),
        (90, -90, 180, 0),
    );
}

#[test]
fn speed_classes_scale_the_base_speed() {
    assert_eq!(Speed::Slow.multiplier(), 1_000);
    assert_eq!(Speed::Medium.multiplier(), 1_200);
    assert_eq!(Speed::Fast.multiplier(), 1_500);
    assert_eq!(Speed::Slow.value(), 800);
    assert_eq!(Speed::Medium.value(), 960);
    assert_eq!(Speed::Fast.value(), 1_200);
}

#[test]
fn four_target_slots_one_per_direction() {
    let slots = setup_target_arrows();
    assert_eq!(slots.len(), 4);
    let directions: Vec<ArrowDirection> = slots.iter().map(|s| s.direction).collect();
    assert_eq!(
        directions,
        vec![ArrowDirection::Up, ArrowDirection::Down, ArrowDirection::Left, ArrowDirection::Right],
    );
    for slot in &slots {
        assert_eq!(slot.x, ARROW_JOURNEY_END_POSITION);
        assert_eq!(slot.y, slot.direction.y());
        assert_eq!(slot.rotation, slot.direction.rotation());
    }
}
