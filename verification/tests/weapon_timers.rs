use mantis_shooter::melee::{MeleeState, MELEE_COOLDOWN, MELEE_FRAMES, MELEE_STRIKE_AT};
use mantis_shooter::spray::{SprayState, RECOIL_RESET_FRAMES};

#[test]
fn melee_swing_lands_at_its_middle_once() {
    let mut m = MeleeState::new();
    assert!(m.try_start(true));
    assert_eq!(m.timer, MELEE_FRAMES);
    let mut landed_at = Vec::new();
    for frame in 1..=MELEE_FRAMES {
        if m.tick(true) {
            landed_at.push(frame);
        }
    }
    assert_eq!(landed_at, vec![MELEE_FRAMES - MELEE_STRIKE_AT]);
    assert_eq!(m.timer, 0);
    assert_eq!(m.cooldown, MELEE_COOLDOWN - 1);
    assert!(m.hit);
}

#[test]
fn melee_misses_when_nothing_in_reach_at_the_middle() {
    let mut m = MeleeState::new();
    assert!(m.try_start(true));
    let mut landed = 0;
    for frame in 1..=MELEE_FRAMES {
        let reach = frame != MELEE_FRAMES - MELEE_STRIKE_AT;
        if m.tick(reach) {
            landed += 1;
        }
    }
    assert_eq!(landed, 0);
    assert!(!m.hit);
}

#[test]
fn melee_cannot_restart_during_swing_or_cooldown() {
    let mut m = MeleeState::new();
    assert!(!m.try_start(false));
    assert!(m.try_start(true));
    assert!(m.swinging());
    assert!(!m.try_start(true));
    for _ in 0..MELEE_FRAMES {
        m.tick(false);
    }
    assert!(!m.swinging());
    let mut waited = 0;
    while !m.try_start(true) {
        m.tick(false);
        waited += 1;
    }
    assert_eq!(waited, MELEE_COOLDOWN - 1);
}

#[test]
fn spray_restarts_after_idle_frames() {
    let mut s = SprayState::new();
    assert_eq!(s.shoot(), 0);
    assert_eq!(s.shoot(), 1);
    assert_eq!(s.reset_timer, RECOIL_RESET_FRAMES);
    for _ in 0..RECOIL_RESET_FRAMES {
        assert!(!s.rest());
        assert_eq!(s.index, 2);
    }
    assert!(s.rest());
    assert_eq!(s.index, 0);
    assert!(!s.rest());
}

#[test]
fn spray_restart_on_reload_keeps_timer() {
    let mut s = SprayState::new();
    s.shoot();
    s.restart();
    assert_eq!(s.index, 0);
    assert_eq!(s.reset_timer, RECOIL_RESET_FRAMES);
}

#[test]
fn would_land_predicts_tick() {
    let mut m = MeleeState::new();
    m.try_start(true);
    for _ in 0..MELEE_FRAMES {
        let predicted = m.would_land(true);
        assert_eq!(m.tick(true), predicted);
    }
}
