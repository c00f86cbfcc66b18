use mantis_shooter::ai::{action_for_roll, random_action, EnemyAction, ACTION_KINDS};
use mantis_shooter::rng::Rng;

fn action(shooting: bool, crouching: bool, walking: bool, sprinting: bool, turning: bool, melee: bool) -> EnemyAction {
    EnemyAction { shooting, crouching, walking, sprinting, turning, melee }
}

#[test]
fn xorshift_sequence_from_initial_seed() {
    let mut rng = Rng::new(12345);
    assert_eq!(rng.next_u32(), 3336926330);
    assert_eq!(rng.next_u32(), 1697253807);
    assert_eq!(rng.next_u32(), 2816511904);
    assert_eq!(rng.state, 2816511904);
}

#[test]
fn xorshift_never_reaches_zero_from_nonzero_seed() {
    let mut rng = Rng::new(1);
    for _ in 0..100_000 {
        assert_ne!(rng.next_u32(), 0);
    }
}

#[test]
fn xorshift_stays_at_zero() {
    let mut rng = Rng::new(0);
    assert_eq!(rng.next_u32(), 0);
}

#[test]
fn action_table_by_residue() {
    assert_eq!(action_for_roll(0), action(false, false, false, false, false, false));
    assert_eq!(action_for_roll(1), action(false, true, false, false, false, false));
    assert_eq!(action_for_roll(2), action(false, false, false, true, false, false));
    assert_eq!(action_for_roll(3), action(false, false, true, false, false, false));
    assert_eq!(action_for_roll(4), action(false, false, false, false, true, false));
    assert_eq!(action_for_roll(5), action(false, false, true, false, true, false));
    assert_eq!(action_for_roll(6), action(false, false, false, true, true, false));
    assert_eq!(action_for_roll(7), action(true, false, false, false, false, false));
    assert_eq!(action_for_roll(8), action(true, true, false, false, false, false));
    assert_eq!(action_for_roll(9), action(true, false, true, false, false, false));
    assert_eq!(action_for_roll(10), action(true, false, false, true, false, false));
    assert_eq!(action_for_roll(11), action(false, false, false, false, false, true));
    assert_eq!(action_for_roll(23), action_for_roll(11));
    assert_eq!(action_for_roll(u32::MAX), action_for_roll(u32::MAX % ACTION_KINDS));
}

#[test]
fn twelve_distinct_actions() {
    for i in 0..12u32 {
        for j in 0..12u32 {
            if i != j {
                assert_ne!(action_for_roll(i), action_for_roll(j));
            }
        }
    }
}

#[test]
fn turn_rate_kept_only_without_shooting_or_melee() {
    assert!(action_for_roll(4).keeps_turn_rate());
    assert!(!action_for_roll(7).keeps_turn_rate());
    assert!(!action_for_roll(11).keeps_turn_rate());
    assert!(action_for_roll(5).turns());
    assert!(!action_for_roll(7).turns());
    assert!(action_for_roll(9).moves_forward());
    assert!(action_for_roll(10).moves_forward());
    assert!(!action_for_roll(1).moves_forward());
}

#[test]
fn random_action_draws_three_values() {
    let mut rng = Rng::new(12345);
    let roll = random_action(&mut rng);
    assert_eq!(roll.duration_roll, 3336926330);
    assert_eq!(roll.turn_roll, 1697253807);
    assert_eq!(roll.action, action(false, false, false, false, true, false));
    assert_eq!(rng.state, 2816511904);
}
