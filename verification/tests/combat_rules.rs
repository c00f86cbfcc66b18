use mantis_shooter::combat::TriggerOutcome;
use mantis_shooter::ai::{random_action, EnemyAction};
use mantis_shooter::rules::{
    GameState, BODY_DAMAGE, DEATH_TOTAL_FRAMES, ENEMY_HP, HEAD_DAMAGE, HEAL_FLASH_FRAMES,
    HIT_FLASH_FRAMES, PLAYER_HP, RESPAWN_FRAMES,
};
use mantis_shooter::melee::MELEE_FRAMES;

fn playing() -> GameState {
    let mut g = GameState::new();
    g.start_game();
    g.countdown = 0;
    g
}

#[test]
fn hit_flash_fades() {
    let mut g = playing();
    g.player.hit_flash = 2;
    g.tick_hit_flash();
    assert_eq!(g.player.hit_flash, 1);
    g.tick_hit_flash();
    g.tick_hit_flash();
    assert_eq!(g.player.hit_flash, 0);
}

#[test]
fn enemies_plan_only_when_action_ran_out() {
    let mut g = playing();
    let plans = g.plan_enemy_actions();
    assert_eq!(plans, vec![None, None]);
    assert_eq!(g.rng.state, 12345);
    g.enemies[1].action_timer = 0;
    let mut copy = g.rng;
    let expected = random_action(&mut copy);
    let plans = g.plan_enemy_actions();
    assert_eq!(plans, vec![None, Some(expected)]);
    assert_eq!(g.rng, copy);
}

#[test]
fn dying_enemy_still_draws_a_plan() {
    let mut g = playing();
    g.enemies[0].action_timer = 0;
    g.enemies[0].dying = true;
    g.enemies[1].action_timer = 0;
    let plans = g.plan_enemy_actions();
    assert!(plans[0].is_some());
    assert!(plans[1].is_some());
    assert_ne!(plans[0], plans[1]);
}

#[test]
fn enemy_turn_takes_plan_and_counts_down() {
    let mut g = playing();
    let shoot = EnemyAction { shooting: true, crouching: false, walking: false, sprinting: false, turning: false, melee: false };
    g.begin_enemy_turn(0, Some((shoot, 40)));
    assert_eq!(g.enemies[0].action, shoot);
    assert_eq!(g.enemies[0].action_timer, 39);
    g.begin_enemy_turn(1, None);
    assert_eq!(g.enemies[1].action_timer, 29);
    assert!(g.enemy_may_shoot(0));
    assert!(!g.enemy_may_shoot(1));
    g.dev_mode = true;
    assert!(!g.enemy_may_shoot(0));
}

#[test]
fn enemy_melee_hurts_player_at_swing_middle() {
    let mut g = playing();
    assert!(g.enemies[0].melee.try_start(true));
    let mut falls = 0;
    for _ in 0..MELEE_FRAMES {
        if g.enemy_melee_tick(0, true) {
            falls += 1;
        }
    }
    assert_eq!(falls, 0);
    assert_eq!(g.player.hp, PLAYER_HP - 50);
    assert!(g.player.hit_flash == HIT_FLASH_FRAMES);
}

#[test]
fn enemy_melee_can_start_player_death() {
    let mut g = playing();
    g.player.hp = 30;
    g.enemies[0].melee.try_start(true);
    let mut fell = false;
    for _ in 0..MELEE_FRAMES {
        fell |= g.enemy_melee_tick(0, true);
    }
    assert!(fell);
    assert_eq!(g.player.hp, 0);
    assert!(g.player.dying);
}

#[test]
fn projectiles_keep_hurting_within_the_fatal_frame() {
    let mut g = playing();
    g.player.hp = 15;
    assert!(g.player_hit_by_projectiles(3));
    assert!(g.player.dying);
    assert_eq!(g.player.hp, -10);
    assert_eq!(g.player.death_anim, 0);
    assert!(!g.player_hit_by_projectiles(1));
    assert_eq!(g.player.hp, -20);
    let mut h = playing();
    assert!(!h.player_hit_by_projectiles(2));
    assert_eq!(h.player.hp, PLAYER_HP - 20);
    assert!(!h.player_hit_by_projectiles(0));
}

#[test]
fn player_melee_kills_first_enemy_in_reach() {
    let mut g = playing();
    g.enemies[1].hp = 40;
    assert!(g.player.melee.try_start(true));
    let mut kills = Vec::new();
    for _ in 0..MELEE_FRAMES {
        if let Some(i) = g.player_melee_tick(&vec![false, true]) {
            kills.push(i);
        }
    }
    assert_eq!(kills, vec![1]);
    assert_eq!(g.score, 1);
    assert_eq!(g.enemies[1].hp, 0);
    assert!(g.enemies[1].dying);
    assert_eq!(g.enemies[0].hp, ENEMY_HP);
}

#[test]
fn player_melee_hits_only_one_enemy() {
    let mut g = playing();
    g.player.melee.try_start(true);
    for _ in 0..MELEE_FRAMES {
        assert_eq!(g.player_melee_tick(&vec![true, true]), None);
    }
    assert_eq!(g.enemies[0].hp, ENEMY_HP - 50);
    assert_eq!(g.enemies[1].hp, ENEMY_HP);
    assert_eq!(g.score, 0);
}

#[test]
fn bullets_kill_once_and_spare_dying_enemies() {
    let mut g = playing();
    let killed = g.apply_shot_hits(&vec![0, 0, 0, 5], HEAD_DAMAGE);
    assert_eq!(killed, vec![0]);
    assert_eq!(g.enemies[0].hp, ENEMY_HP - 2 * HEAD_DAMAGE);
    assert!(g.enemies[0].dying);
    assert_eq!(g.score, 1);
    let killed = g.apply_shot_hits(&vec![1, 1, 0], BODY_DAMAGE);
    assert!(killed.is_empty());
    assert_eq!(g.enemies[1].hp, ENEMY_HP - 2 * BODY_DAMAGE);
    assert_eq!(g.enemies[0].hp, ENEMY_HP - 2 * HEAD_DAMAGE);
    assert_eq!(g.score, 1);
}

#[test]
fn health_pickup_cycle() {
    let mut g = playing();
    let spawn = g.advance_pickup();
    assert_eq!(spawn, Some((3336926330, 1697253807)));
    assert!(g.pickup_active);
    assert_eq!(g.advance_pickup(), None);
    g.player.hp = 450;
    let roll = g.player_takes_pickup();
    assert_eq!(roll, 2816511904);
    assert_eq!(g.player.hp, PLAYER_HP);
    assert_eq!(g.player.heal_flash, HEAL_FLASH_FRAMES);
    assert!(!g.pickup_active);
    g.schedule_pickup(2);
    assert_eq!(g.advance_pickup(), None);
    assert_eq!(g.advance_pickup(), None);
    assert!(g.advance_pickup().is_some());
    g.player.hp = 100;
    g.player_takes_pickup();
    assert_eq!(g.player.hp, 200);
}

#[test]
fn enemy_takes_pickup_first_alive_near() {
    let mut g = playing();
    g.advance_pickup();
    g.enemies[0].alive = false;
    g.enemies[1].hp = 10;
    assert_eq!(g.enemies_take_pickup(&vec![false, false]), None);
    assert!(g.pickup_active);
    let taken = g.enemies_take_pickup(&vec![true, true]);
    assert_eq!(taken.map(|t| t.0), Some(1));
    assert_eq!(g.enemies[1].hp, 110.min(ENEMY_HP));
    assert_eq!(g.enemies[1].heal_flash, HEAL_FLASH_FRAMES);
    assert!(!g.pickup_active);
}

#[test]
fn heal_flashes_fade() {
    let mut g = playing();
    g.player.heal_flash = 1;
    g.enemies[1].heal_flash = 3;
    g.tick_heal_flashes();
    assert_eq!(g.player.heal_flash, 0);
    assert_eq!(g.enemies[0].heal_flash, 0);
    assert_eq!(g.enemies[1].heal_flash, 2);
}

#[test]
fn killed_enemy_respawns_after_death_and_delay() {
    let mut g = playing();
    g.apply_shot_hits(&vec![0, 0], HEAD_DAMAGE);
    assert!(g.enemies[0].dying);
    let total = DEATH_TOTAL_FRAMES + RESPAWN_FRAMES;
    for frame in 1..=total {
        let back = g.advance_enemy_lifecycles();
        assert_eq!(back[1], false);
        if frame < total {
            assert!(!back[0]);
            assert!(!g.enemies[0].is_active());
        } else {
            assert!(back[0]);
        }
        if frame == DEATH_TOTAL_FRAMES {
            assert!(!g.enemies[0].alive);
            assert_eq!(g.enemies[0].death_timer, RESPAWN_FRAMES - 1);
        }
    }
    assert!(g.enemies[0].is_active());
    assert_eq!(g.enemies[0].hp, ENEMY_HP);
    assert_eq!(g.enemies[0].action_timer, 30);
}

#[test]
fn spawn_rolls_two_per_enemy() {
    let mut g = playing();
    let rolls = g.draw_spawn_rolls();
    assert_eq!(rolls, vec![(3336926330, 1697253807), (2816511904, 1955480042)]);
    assert_eq!(g.rng.state, 1955480042);
}

#[test]
fn player_trigger_fires_holds_and_rests() {
    let mut g = playing();
    assert_eq!(g.player_trigger(true, true, true), TriggerOutcome::Fire { shot: 0 });
    assert_eq!(g.player_trigger(true, true, true), TriggerOutcome::Fire { shot: 1 });
    assert_eq!(g.player_trigger(true, true, false), TriggerOutcome::Hold);
    assert_eq!(g.player_trigger(true, false, true), TriggerOutcome::Hold);
    for _ in 0..15 {
        assert_eq!(g.player_trigger(false, true, true), TriggerOutcome::Rest { clear_recoil: false });
    }
    assert_eq!(g.player_trigger(false, true, true), TriggerOutcome::Rest { clear_recoil: true });
    assert_eq!(g.player.spray.index, 0);
    g.player.melee.try_start(true);
    assert_eq!(g.player_trigger(true, true, true), TriggerOutcome::Hold);
}

#[test]
fn enemy_trigger_follows_action() {
    let mut g = playing();
    assert_eq!(g.enemy_trigger(0, true, true), TriggerOutcome::Rest { clear_recoil: false });
    g.enemies[0].action.shooting = true;
    assert_eq!(g.enemy_trigger(0, true, true), TriggerOutcome::Fire { shot: 0 });
    assert_eq!(g.enemy_trigger(0, true, false), TriggerOutcome::Hold);
    assert_eq!(g.enemy_trigger(0, false, true), TriggerOutcome::Rest { clear_recoil: false });
    assert_eq!(g.enemies[0].spray.index, 1);
    assert_eq!(g.enemies[0].spray.reset_timer, 14);
    g.dev_mode = true;
    assert_eq!(g.enemy_trigger(0, true, true), TriggerOutcome::Rest { clear_recoil: false });
}

#[test]
fn rule_wrappers_for_reload_and_swings() {
    let mut g = playing();
    g.player_trigger(true, true, true);
    g.player_reload();
    assert_eq!(g.player.spray.index, 0);
    assert!(!g.player_try_melee(false));
    assert!(g.player_try_melee(true));
    assert_eq!(g.player.melee.timer, MELEE_FRAMES);
    assert!(!g.player_try_melee(true));
    assert!(g.enemy_try_melee(1, true));
    assert_eq!(g.enemies[1].melee.timer, MELEE_FRAMES);
    assert_eq!(g.enemies[0].melee.timer, 0);
}

#[test]
fn player_melee_kills_predicts_the_kill() {
    let mut g = playing();
    g.player_try_melee(true);
    let reach = vec![false, true];
    let mut predicted = Vec::new();
    for _ in 0..MELEE_FRAMES {
        predicted.push(g.player_melee_kills(&reach));
        g.player_melee_tick(&reach);
    }
    assert!(predicted.iter().all(|b| !*b));

    let mut g = playing();
    g.enemies[1].hp = 1;
    g.player_try_melee(true);
    let mut predicted = Vec::new();
    let mut killed = Vec::new();
    for _ in 0..MELEE_FRAMES {
        predicted.push(g.player_melee_kills(&reach));
        killed.push(g.player_melee_tick(&reach).is_some());
    }
    assert_eq!(predicted, killed);
    assert_eq!(killed.iter().filter(|b| **b).count(), 1);
}

#[test]
fn shot_kills_predicts_without_changing_the_game() {
    let mut g = playing();
    g.enemies[0].hp = 40;
    let hits = vec![1, 1, 0, 1, 7];
    let enemies = g.enemies.clone();
    let score = g.score;
    assert_eq!(g.shot_kills(&hits, HEAD_DAMAGE), 2);
    assert_eq!(g.enemies, enemies);
    assert_eq!(g.score, score);
    assert_eq!(g.shot_kills(&hits, BODY_DAMAGE), 0);
    let killed = g.apply_shot_hits(&hits, HEAD_DAMAGE);
    assert_eq!(killed, vec![1, 0]);
    assert_eq!(g.score, score + 2);
}

#[test]
fn frame_score_counts_each_kill_once() {
    let mut g = playing();
    g.enemies[0].hp = 40;
    g.player_try_melee(true);
    for _ in 0..8 {
        g.player_melee_tick(&vec![true, false]);
    }
    let start = g.enemies.clone();
    let score = g.score;
    assert_eq!(g.player_melee_tick(&vec![true, false]), Some(0));
    let killed = g.apply_shot_hits(&vec![1, 1, 0, 1], HEAD_DAMAGE);
    assert_eq!(killed, vec![1]);
    g.draw_spawn_rolls();
    g.advance_enemy_lifecycles();
    let fell = (0..2).filter(|&i| !start[i].dying && g.enemies[i].dying).count() as u32;
    assert_eq!(fell, 2);
    assert_eq!(g.score, score + fell);
    assert_eq!(g.enemies[0].death_anim, 1);
    assert_eq!(g.enemies[1].death_anim, 1);
}

#[test]
fn score_may_reach_its_limit_when_only_kills_are_counted() {
    let mut g = playing();
    g.score = u32::MAX - 1;
    let hits = vec![0, 0, 0, 1];
    assert_eq!(g.shot_kills(&hits, HEAD_DAMAGE), 1);
    assert_eq!(g.apply_shot_hits(&hits, HEAD_DAMAGE), vec![0]);
    assert_eq!(g.score, u32::MAX);
}
