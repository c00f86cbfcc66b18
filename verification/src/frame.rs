use vstd::prelude::*;
use crate::rng::{xorshift_step, xorshift_iter};
use crate::ai::{AiRoll, EnemyAction};
use crate::melee::{melee_of, melee_tick, MELEE_FRAMES};
use crate::spray::spray_of;
use crate::rules::{
    GameModel, PlayerState, EnemyState, model_wf, player_wf, enemy_wf, enemy_active, fresh_enemy,
    HIT_FLASH_FRAMES, HEAL_FLASH_FRAMES, MELEE_DAMAGE, ENEMY_DAMAGE, HEAD_DAMAGE, BODY_DAMAGE,
    ENEMY_HP, DEATH_TOTAL_FRAMES, RESPAWN_FRAMES,
};
use crate::combat::{
    hurt_player, hurt_player_n, melee_blow, shot_enemy, healed, melee_target_from, pickup_taker_from,
    shots_apply, enemy_trigger_spec, player_trigger_spec, lemma_hurt_keeps_wf, lemma_target_found,
};
use crate::enemies::{planned_roll, planned_before, begin_turn, lifecycle_step, lifecycle_run, respawned};

verus! {

/// What the program measures for enemy `i` during a frame of play (from
/// positions and the engine): the duration it rolled, whether it sees the
/// player and can fire, whether the player is within melee range when it
/// may start a swing, and whether the player is in reach of its blow.
pub ghost struct EnemyFrameInput {
    pub duration: u32,
    pub sees_target: bool,
    pub can_fire: bool,
    pub melee_in_range: bool,
    pub in_reach: bool,
}

/// What the program measures for the player and the pickup during a frame
/// of play, with the bullets that hit heads and bodies of enemies and the
/// enemy bullets that hit the player.
pub ghost struct FrameInput {
    pub enemy: Seq<EnemyFrameInput>,
    pub player_near_pickup: bool,
    pub player_pickup_delay: u32,
    pub enemies_near_pickup: Seq<bool>,
    pub enemy_pickup_delay: u32,
    pub reload: bool,
    pub trigger_down: bool,
    pub can_fire: bool,
    pub has_aim: bool,
    pub melee_key: bool,
    pub melee_reach: Seq<bool>,
    pub head_hits: Seq<usize>,
    pub body_hits: Seq<usize>,
    pub projectile_hits: nat,
}

pub open spec fn input_fits(m: GameModel, f: FrameInput) -> bool {
    &&& f.enemy.len() == m.enemies.len()
    &&& f.enemies_near_pickup.len() == m.enemies.len()
    &&& f.melee_reach.len() == m.enemies.len()
}

/// `tick_hit_flash` on the game's value.
pub open spec fn hit_flash_model(m: GameModel) -> GameModel {
    GameModel {
        player: PlayerState {
            hit_flash: if m.player.hit_flash > 0 { (m.player.hit_flash - 1) as u32 } else { 0 },
            ..m.player
        },
        ..m
    }
}

/// `plan_enemy_actions` on the game's value (the plans are its result).
pub open spec fn plan_model(m: GameModel) -> GameModel {
    GameModel { rng: xorshift_iter(m.rng, 3 * planned_before(m.enemies, m.enemies.len() as int)), ..m }
}

/// `begin_enemy_turn` on the game's value.
pub open spec fn begin_turn_model(m: GameModel, i: int, plan: Option<(EnemyAction, u32)>) -> GameModel {
    GameModel { enemies: m.enemies.update(i, begin_turn(m.enemies[i], plan)), ..m }
}

/// `enemy_trigger` on the game's value.
pub open spec fn enemy_trigger_model(m: GameModel, i: int, sees_target: bool, can_fire: bool) -> GameModel {
    let e = m.enemies[i];
    let may = e.action.shooting && !m.dev_mode && e.melee.timer == 0;
    GameModel { enemies: m.enemies.update(i, enemy_trigger_spec(e, may, sees_target, can_fire).0), ..m }
}

/// `enemy_try_melee` on the game's value.
pub open spec fn enemy_try_melee_model(m: GameModel, i: int, wanted: bool) -> GameModel {
    let e = m.enemies[i];
    if wanted && e.melee.timer == 0 && e.melee.cooldown == 0 {
        GameModel { enemies: m.enemies.update(i, EnemyState { melee: melee_of(MELEE_FRAMES, 0, false), ..e }), ..m }
    } else {
        m
    }
}

/// `enemy_melee_tick` on the game's value.
pub open spec fn enemy_melee_tick_model(m: GameModel, i: int, in_reach: bool) -> GameModel {
    let e = m.enemies[i];
    let (mm, landed) = melee_tick(e.melee, in_reach);
    GameModel {
        enemies: m.enemies.update(i, EnemyState { melee: mm, ..e }),
        player: if landed { hurt_player(m.player, MELEE_DAMAGE).0 } else { m.player },
        ..m
    }
}

/// Enemy `i`'s turn, as the program runs it for an active enemy: its
/// planned action, its trigger, the start of a swing when its action is a
/// melee attack, and the swing's frame, whose blow may hurt the player.
pub open spec fn enemy_turn_model(m: GameModel, i: int, plan: Option<AiRoll>, inp: EnemyFrameInput) -> GameModel {
    if !enemy_active(m.enemies[i]) {
        m
    } else {
        let m1 = begin_turn_model(m, i, match plan { Some(r) => Some((r.action, inp.duration)), None => None });
        let m2 = enemy_trigger_model(m1, i, inp.sees_target, inp.can_fire);
        let m3 = if m2.enemies[i].action.melee && !m2.dev_mode {
            enemy_try_melee_model(m2, i, inp.melee_in_range)
        } else {
            m2
        };
        enemy_melee_tick_model(m3, i, inp.in_reach)
    }
}

/// The turns of enemies `0..k`, in order, with plans drawn for the enemies
/// `es0` from generator state `s0`.
pub open spec fn enemy_turns_model(m: GameModel, es0: Seq<EnemyState>, s0: u32, f: FrameInput, k: int) -> GameModel
    decreases k,
{
    if k <= 0 {
        m
    } else {
        let m1 = enemy_turns_model(m, es0, s0, f, k - 1);
        enemy_turn_model(m1, k - 1, planned_roll(es0, s0, k - 1), f.enemy[k - 1])
    }
}

pub open spec fn heal_flashes_model(m: GameModel) -> GameModel {
    GameModel {
        player: PlayerState {
            heal_flash: if m.player.heal_flash > 0 { (m.player.heal_flash - 1) as u32 } else { 0 },
            ..m.player
        },
        enemies: Seq::new(m.enemies.len(), |i: int| EnemyState {
            heal_flash: if m.enemies[i].heal_flash > 0 { (m.enemies[i].heal_flash - 1) as u32 } else { 0 },
            ..m.enemies[i]
        }),
        ..m
    }
}

/// `advance_pickup` on the game's value.
pub open spec fn advance_pickup_model(m: GameModel) -> GameModel {
    if !m.pickup_active {
        if m.pickup_timer > 0 {
            GameModel { pickup_timer: (m.pickup_timer - 1) as u32, ..m }
        } else {
            GameModel { pickup_active: true, rng: xorshift_step(xorshift_step(m.rng)), ..m }
        }
    } else {
        m
    }
}

/// `player_takes_pickup` on the game's value.
pub open spec fn player_takes_pickup_model(m: GameModel) -> GameModel {
    GameModel {
        player: PlayerState { hp: healed(m.player.hp, m.player.max_hp), heal_flash: HEAL_FLASH_FRAMES, ..m.player },
        pickup_active: false,
        rng: xorshift_step(m.rng),
        ..m
    }
}

/// `enemies_take_pickup` on the game's value.
pub open spec fn enemies_take_pickup_model(m: GameModel, near: Seq<bool>) -> GameModel {
    match pickup_taker_from(m.enemies, near, 0) {
        None => m,
        Some(j) => {
            let e = m.enemies[j as int];
            GameModel {
                enemies: m.enemies.update(
                    j as int,
                    EnemyState { hp: healed(e.hp, e.max_hp), heal_flash: HEAL_FLASH_FRAMES, ..e },
                ),
                pickup_active: false,
                rng: xorshift_step(m.rng),
                ..m
            }
        },
    }
}

/// `schedule_pickup` on the game's value.
pub open spec fn schedule_pickup_model(m: GameModel, delay: u32) -> GameModel {
    GameModel { pickup_timer: delay, ..m }
}

/// The health pickup's frame, as the program runs it: its spawn timer,
/// then the player and then the first alive enemy near it may take it,
/// each time with the delay until the next one.
pub open spec fn pickup_model(m: GameModel, f: FrameInput) -> GameModel {
    let m1 = advance_pickup_model(m);
    if !m1.pickup_active {
        m1
    } else {
        let m2 = if f.player_near_pickup {
            schedule_pickup_model(player_takes_pickup_model(m1), f.player_pickup_delay)
        } else {
            m1
        };
        if !m2.pickup_active {
            m2
        } else {
            let m3 = enemies_take_pickup_model(m2, f.enemies_near_pickup);
            if m3.pickup_active { m3 } else { schedule_pickup_model(m3, f.enemy_pickup_delay) }
        }
    }
}

/// `player_reload` on the game's value.
pub open spec fn player_reload_model(m: GameModel) -> GameModel {
    GameModel { player: PlayerState { spray: spray_of(0, m.player.spray.reset_timer), ..m.player }, ..m }
}

/// `player_trigger` on the game's value.
pub open spec fn player_trigger_model(m: GameModel, trigger_down: bool, can_fire: bool, has_aim: bool) -> GameModel {
    GameModel { player: player_trigger_spec(m.player, trigger_down, can_fire, has_aim).0, ..m }
}

/// `player_try_melee` on the game's value.
pub open spec fn player_try_melee_model(m: GameModel, wanted: bool) -> GameModel {
    if wanted && m.player.melee.timer == 0 && m.player.melee.cooldown == 0 {
        GameModel { player: PlayerState { melee: melee_of(MELEE_FRAMES, 0, false), ..m.player }, ..m }
    } else {
        m
    }
}

/// `player_melee_tick` on the game's value.
pub open spec fn player_melee_tick_model(m: GameModel, reach: Seq<bool>) -> GameModel {
    let target = melee_target_from(m.enemies, reach, 0);
    let (mm, landed) = melee_tick(m.player.melee, target is Some);
    let m1 = GameModel { player: PlayerState { melee: mm, ..m.player }, ..m };
    if landed {
        let j = target->0 as int;
        let e = melee_blow(m.enemies[j]);
        GameModel {
            enemies: m.enemies.update(j, e),
            score: if e.dying { (m.score + 1) as u32 } else { m.score },
            ..m1
        }
    } else {
        m1
    }
}

/// The player's weapon and melee attack for a frame, as the program runs
/// them: reload, trigger, the start of a swing and the swing's frame, whose
/// blow may kill an enemy.
pub open spec fn player_weapons_model(m: GameModel, f: FrameInput) -> GameModel {
    let m1 = if f.reload { player_reload_model(m) } else { m };
    let m2 = player_trigger_model(m1, f.trigger_down, f.can_fire, f.has_aim);
    let m3 = player_try_melee_model(m2, f.melee_key);
    player_melee_tick_model(m3, f.melee_reach)
}

pub open spec fn shots_model(m: GameModel, hits: Seq<usize>, dmg: i32) -> GameModel {
    let (es, killed) = shots_apply(m.enemies, hits, dmg);
    GameModel { enemies: es, score: (m.score + killed.len()) as u32, ..m }
}

/// Every enemy's death and respawn cycle advanced one step.
pub open spec fn lifecycles(es: Seq<EnemyState>) -> Seq<EnemyState> {
    Seq::new(es.len(), |i: int| lifecycle_step(es[i]).0)
}

pub open spec fn lifecycles_model(m: GameModel) -> GameModel {
    GameModel { enemies: lifecycles(m.enemies), ..m }
}

/// The start of a frame of play: the hit flash fades, the enemies draw
/// their plans and take their turns.
pub open spec fn turns_stage(m: GameModel, f: FrameInput) -> GameModel {
    let m1 = hit_flash_model(m);
    enemy_turns_model(plan_model(m1), m1.enemies, m1.rng, f, m1.enemies.len() as int)
}

/// The middle of a frame of play: heal flashes, the pickup, the player's
/// weapons and melee, and the bullets on heads and then on bodies.
pub open spec fn combat_stage(m: GameModel, f: FrameInput) -> GameModel {
    let m4 = heal_flashes_model(m);
    let m5 = pickup_model(m4, f);
    let m6 = player_weapons_model(m5, f);
    let m7 = shots_model(m6, f.head_hits, HEAD_DAMAGE);
    shots_model(m7, f.body_hits, BODY_DAMAGE)
}

/// The end of a frame of play: enemy bullets on the player, the respawn
/// draws and the enemies' death and respawn cycle.
pub open spec fn closing_stage(m: GameModel, f: FrameInput) -> GameModel {
    lifecycles_model(spawn_rolls_model(projectiles_model(m, f.projectile_hits)))
}

/// `player_hit_by_projectiles` on the game's value.
pub open spec fn projectiles_model(m: GameModel, count: nat) -> GameModel {
    GameModel { player: hurt_player_n(m.player, ENEMY_DAMAGE, count).0, ..m }
}

/// `draw_spawn_rolls` on the game's value (the draws are its result).
pub open spec fn spawn_rolls_model(m: GameModel) -> GameModel {
    GameModel { rng: xorshift_iter(m.rng, 2 * m.enemies.len()), ..m }
}

/// The rules of one frame of play, in the order the program applies them
/// once the frame has started in the playing phase: the hit flash, the
/// enemies' plans and turns, the heal flashes, the health pickup, the
/// player's weapon and melee, the bullets on heads and then on bodies, the
/// enemy bullets on the player, the respawn draws and the enemies' death
/// and respawn cycle.
pub open spec fn play_frame_model(m: GameModel, f: FrameInput) -> GameModel {
    closing_stage(combat_stage(turns_stage(m, f), f), f)
}

} // verus!

verus! {

/// Whether enemy `i` started dying between `a` and `b`.
pub open spec fn fell(a: Seq<EnemyState>, b: Seq<EnemyState>, i: int) -> bool {
    !a[i].dying && b[i].dying
}

/// How many of the first `k` enemies started dying between `a` and `b`.
pub open spec fn newly_dying(a: Seq<EnemyState>, b: Seq<EnemyState>, k: int) -> nat
    decreases k,
{
    if k <= 0 {
        0
    } else {
        newly_dying(a, b, k - 1) + if fell(a, b, k - 1) { 1nat } else { 0nat }
    }
}

/// Between `a` and `b` (within a frame, before the death cycle advances):
/// no dying enemy has stopped dying and each enemy that fell is alive at
/// the start of its death animation.
pub open spec fn deaths_kept(a: Seq<EnemyState>, b: Seq<EnemyState>) -> bool {
    &&& a.len() == b.len()
    &&& forall|i: int| 0 <= i < a.len() && a[i].dying ==> #[trigger] b[i].dying
    &&& forall|i: int| 0 <= i < a.len() && #[trigger] fell(a, b, i) ==> b[i].death_anim == 0 && b[i].alive
}

/// `c` differs from `b` in no enemy's life: alive, dying, animation frame.
pub open spec fn same_lives(b: Seq<EnemyState>, c: Seq<EnemyState>) -> bool {
    &&& b.len() == c.len()
    &&& forall|i: int| 0 <= i < b.len() ==> (#[trigger] c[i]).dying == b[i].dying && c[i].alive == b[i].alive
        && c[i].death_anim == b[i].death_anim && c[i].death_timer == b[i].death_timer && c[i].max_hp == b[i].max_hp
}

proof fn lemma_count_pointwise(a: Seq<EnemyState>, b: Seq<EnemyState>, c: Seq<EnemyState>, k: int)
    requires
        forall|i: int| 0 <= i < k ==> fell(a, b, i) == fell(a, c, i),
    ensures
        newly_dying(a, b, k) == newly_dying(a, c, k),
    decreases k,
{
    if k > 0 {
        lemma_count_pointwise(a, b, c, k - 1);
    }
}

proof fn lemma_same_lives(a: Seq<EnemyState>, b: Seq<EnemyState>, c: Seq<EnemyState>)
    requires
        deaths_kept(a, b),
        same_lives(b, c),
    ensures
        deaths_kept(a, c),
        newly_dying(a, c, a.len() as int) == newly_dying(a, b, a.len() as int),
{
    assert forall|i: int| 0 <= i < a.len() as int implies fell(a, b, i) == fell(a, c, i) by {
        assert(c[i].dying == b[i].dying);
    }
    lemma_count_pointwise(a, b, c, a.len() as int);
    assert forall|i: int| 0 <= i < a.len() && #[trigger] fell(a, c, i) implies c[i].death_anim == 0 && c[i].alive by {
        assert(fell(a, b, i));
    }
}

proof fn lemma_one_falls(a: Seq<EnemyState>, b: Seq<EnemyState>, j: int, e: EnemyState, k: int)
    requires
        0 <= j < b.len(),
        a.len() == b.len(),
        0 <= k <= b.len(),
        !a[j].dying,
        !b[j].dying,
        e.dying,
    ensures
        newly_dying(a, b.update(j, e), k) == newly_dying(a, b, k) + if j < k { 1nat } else { 0nat },
    decreases k,
{
    if k > 0 {
        lemma_one_falls(a, b, j, e, k - 1);
    }
}

proof fn lemma_shots_count(a: Seq<EnemyState>, es: Seq<EnemyState>, hits: Seq<usize>, dmg: i32)
    requires
        deaths_kept(a, es),
    ensures
        deaths_kept(a, shots_apply(es, hits, dmg).0),
        newly_dying(a, shots_apply(es, hits, dmg).0, a.len() as int)
            == newly_dying(a, es, a.len() as int) + shots_apply(es, hits, dmg).1.len(),
        shots_apply(es, hits, dmg).1.len() <= hits.len(),
        forall|i: int| 0 <= i < es.len() ==> (#[trigger] shots_apply(es, hits, dmg).0[i]).max_hp == es[i].max_hp
            && shots_apply(es, hits, dmg).0[i].alive == es[i].alive,
        forall|i: int| 0 <= i < es.len() && !enemy_active(es[i]) ==> #[trigger] shots_apply(es, hits, dmg).0[i] == es[i],
    decreases hits.len(),
{
    if hits.len() > 0 {
        lemma_shots_count(a, es, hits.drop_last(), dmg);
        let (es1, killed) = shots_apply(es, hits.drop_last(), dmg);
        let i = hits.last();
        if i < es1.len() && enemy_active(es1[i as int]) {
            let e = shot_enemy(es1[i as int], dmg);
            let es2 = es1.update(i as int, e);
            if e.dying {
                assert(!a[i as int].dying);
                lemma_one_falls(a, es1, i as int, e, a.len() as int);
                assert forall|k: int| 0 <= k < a.len() && #[trigger] fell(a, es2, k) implies es2[k].death_anim == 0 && es2[k].alive by {
                    if k != i {
                        assert(fell(a, es1, k));
                    }
                }
            } else {
                assert(same_lives(es1, es2));
                lemma_same_lives(a, es1, es2);
            }
        }
    }
}

proof fn lemma_lifecycles_count(a: Seq<EnemyState>, b: Seq<EnemyState>)
    requires
        deaths_kept(a, b),
    ensures
        newly_dying(a, lifecycles(b), a.len() as int)
            == newly_dying(a, b, a.len() as int),
        forall|i: int| 0 <= i < a.len() ==> #[trigger] fell(a, lifecycles(b), i)
            == fell(a, b, i),
{
    let c = lifecycles(b);
    assert forall|i: int| 0 <= i < a.len() as int implies fell(a, b, i) == fell(a, c, i) by {
        if fell(a, b, i) {
            assert(b[i].death_anim == 0 && b[i].alive);
        }
    }
    lemma_count_pointwise(a, b, c, a.len() as int);
}

} // verus!

verus! {

/// The player between two points of a frame: still well formed, with the
/// same maximum, and having started the death animation at its first frame
/// if the player fell in between.
pub open spec fn player_kept(p: PlayerState, q: PlayerState) -> bool {
    &&& player_wf(q)
    &&& q.max_hp == p.max_hp
    &&& !p.dying && q.dying ==> q.death_anim == 0
    &&& p.dying ==> q.dying && q.death_anim == p.death_anim
}

proof fn lemma_turn(m: GameModel, i: int, plan: Option<AiRoll>, inp: EnemyFrameInput)
    requires
        0 <= i < m.enemies.len(),
        player_wf(m.player),
        m.player.hp - MELEE_DAMAGE >= i32::MIN,
    ensures
        ({
            let r = enemy_turn_model(m, i, plan, inp);
            &&& same_lives(m.enemies, r.enemies)
            &&& r == (GameModel { enemies: r.enemies, player: r.player, ..m })
            &&& player_kept(m.player, r.player) || r.player == m.player
            &&& player_wf(r.player)
            &&& r.player.hp >= m.player.hp - MELEE_DAMAGE
            &&& !m.player.dying && r.player.dying ==> r.player.death_anim == 0
            &&& m.player.dying ==> r.player.dying && r.player.death_anim == m.player.death_anim
            &&& r.player.max_hp == m.player.max_hp
        }),
{
    let r = enemy_turn_model(m, i, plan, inp);
    if enemy_active(m.enemies[i]) {
        lemma_hurt_keeps_wf(m.player, MELEE_DAMAGE);
        assert forall|j: int| 0 <= j < m.enemies.len() implies (#[trigger] r.enemies[j]).dying == m.enemies[j].dying
            && r.enemies[j].alive == m.enemies[j].alive && r.enemies[j].death_anim == m.enemies[j].death_anim
            && r.enemies[j].death_timer == m.enemies[j].death_timer && r.enemies[j].max_hp == m.enemies[j].max_hp by {
        }
    }
}

proof fn lemma_turns(m: GameModel, es0: Seq<EnemyState>, s0: u32, f: FrameInput, k: int)
    requires
        0 <= k <= m.enemies.len(),
        player_wf(m.player),
        m.player.hp - MELEE_DAMAGE * k >= i32::MIN,
    ensures
        ({
            let r = enemy_turns_model(m, es0, s0, f, k);
            &&& same_lives(m.enemies, r.enemies)
            &&& r == (GameModel { enemies: r.enemies, player: r.player, ..m })
            &&& player_wf(r.player)
            &&& r.player.hp >= m.player.hp - MELEE_DAMAGE * k
            &&& !m.player.dying && r.player.dying ==> r.player.death_anim == 0
            &&& m.player.dying ==> r.player.dying && r.player.death_anim == m.player.death_anim
            &&& r.player.max_hp == m.player.max_hp
        }),
    decreases k,
{
    if k > 0 {
        lemma_turns(m, es0, s0, f, k - 1);
        let m1 = enemy_turns_model(m, es0, s0, f, k - 1);
        lemma_turn(m1, k - 1, planned_roll(es0, s0, k - 1), f.enemy[k - 1]);
        let r = enemy_turns_model(m, es0, s0, f, k);
        assert forall|j: int| 0 <= j < m.enemies.len() implies (#[trigger] r.enemies[j]).dying == m.enemies[j].dying
            && r.enemies[j].alive == m.enemies[j].alive && r.enemies[j].death_anim == m.enemies[j].death_anim
            && r.enemies[j].death_timer == m.enemies[j].death_timer && r.enemies[j].max_hp == m.enemies[j].max_hp by {
            assert(m1.enemies[j].dying == m.enemies[j].dying);
        }
    }
}

proof fn lemma_pickup(m: GameModel, f: FrameInput)
    requires
        forall|i: int| 0 <= i < m.enemies.len() ==> enemy_wf(#[trigger] m.enemies[i]),
        input_fits(m, f),
    ensures
        ({
            let r = pickup_model(m, f);
            &&& same_lives(m.enemies, r.enemies)
            &&& r.score == m.score
            &&& player_wf(m.player) ==> player_kept(m.player, r.player)
            &&& r.player.max_hp == m.player.max_hp
            &&& player_wf(m.player) ==> r.player.hp >= m.player.hp
            &&& r.player.dying == m.player.dying && r.player.death_anim == m.player.death_anim
            &&& r.game_over == m.game_over
            &&& forall|i: int| 0 <= i < r.enemies.len() ==> enemy_wf(#[trigger] r.enemies[i])
        }),
{
    let r = pickup_model(m, f);
    let m1 = if !m.pickup_active {
        if m.pickup_timer > 0 {
            GameModel { pickup_timer: (m.pickup_timer - 1) as u32, ..m }
        } else {
            GameModel { pickup_active: true, rng: xorshift_step(xorshift_step(m.rng)), ..m }
        }
    } else {
        m
    };
    let m2 = if m1.pickup_active && f.player_near_pickup {
        GameModel {
            player: PlayerState {
                hp: healed(m1.player.hp, m1.player.max_hp),
                heal_flash: HEAL_FLASH_FRAMES,
                ..m1.player
            },
            pickup_active: false,
            rng: xorshift_step(m1.rng),
            pickup_timer: f.player_pickup_delay,
            ..m1
        }
    } else {
        m1
    };
    if m2.pickup_active {
        if let Some(j) = pickup_taker_from(m2.enemies, f.enemies_near_pickup, 0) {
            crate::combat::lemma_taker_in_range(m2.enemies, f.enemies_near_pickup, 0);
            assert(enemy_wf(m2.enemies[j as int]));
        }
    }
    assert forall|i: int| 0 <= i < r.enemies.len() implies enemy_wf(#[trigger] r.enemies[i]) by {
        assert(enemy_wf(m.enemies[i]));
    }
}

} // verus!

verus! {

pub open spec fn enemies_wf(es: Seq<EnemyState>) -> bool {
    forall|i: int| 0 <= i < es.len() ==> enemy_wf(#[trigger] es[i])
}

/// Two enemies at the same point of their death and respawn cycle.
pub open spec fn same_life(x: EnemyState, y: EnemyState) -> bool {
    &&& x.alive == y.alive
    &&& x.dying == y.dying
    &&& x.death_anim == y.death_anim
    &&& x.death_timer == y.death_timer
}

proof fn lemma_turns_enemies(m: GameModel, es0: Seq<EnemyState>, s0: u32, f: FrameInput, k: int)
    requires
        0 <= k <= m.enemies.len(),
        enemies_wf(m.enemies),
    ensures
        ({
            let r = enemy_turns_model(m, es0, s0, f, k);
            &&& same_lives(m.enemies, r.enemies)
            &&& enemies_wf(r.enemies)
            &&& r == (GameModel { enemies: r.enemies, player: r.player, ..m })
        }),
    decreases k,
{
    if k > 0 {
        lemma_turns_enemies(m, es0, s0, f, k - 1);
        let m1 = enemy_turns_model(m, es0, s0, f, k - 1);
        let r = enemy_turns_model(m, es0, s0, f, k);
        let e = m1.enemies[k - 1];
        assert(enemy_wf(e));
        assert forall|j: int| 0 <= j < m.enemies.len() implies (#[trigger] r.enemies[j]).dying == m.enemies[j].dying
            && r.enemies[j].alive == m.enemies[j].alive && r.enemies[j].death_anim == m.enemies[j].death_anim
            && r.enemies[j].death_timer == m.enemies[j].death_timer && r.enemies[j].max_hp == m.enemies[j].max_hp by {
            assert(m1.enemies[j].dying == m.enemies[j].dying);
        }
        assert forall|j: int| 0 <= j < r.enemies.len() implies enemy_wf(#[trigger] r.enemies[j]) by {
            assert(enemy_wf(m1.enemies[j]));
        }
    }
}

proof fn lemma_shots_wf(es: Seq<EnemyState>, hits: Seq<usize>, dmg: i32)
    requires
        enemies_wf(es),
        dmg >= 0,
    ensures
        enemies_wf(shots_apply(es, hits, dmg).0),
    decreases hits.len(),
{
    if hits.len() > 0 {
        lemma_shots_wf(es, hits.drop_last(), dmg);
        let (es1, killed) = shots_apply(es, hits.drop_last(), dmg);
        let es2 = shots_apply(es, hits, dmg).0;
        assert forall|j: int| 0 <= j < es2.len() implies enemy_wf(#[trigger] es2[j]) by {
            assert(enemy_wf(es1[j]));
        }
    }
}

proof fn lemma_weapons(a: Seq<EnemyState>, m: GameModel, f: FrameInput)
    requires
        deaths_kept(a, m.enemies),
        enemies_wf(m.enemies),
        f.melee_reach.len() == m.enemies.len(),
    ensures
        ({
            let r = player_weapons_model(m, f);
            &&& deaths_kept(a, r.enemies)
            &&& enemies_wf(r.enemies)
            &&& m.score + newly_dying(a, r.enemies, a.len() as int) <= u32::MAX + newly_dying(a, m.enemies, a.len() as int)
                ==> r.score + newly_dying(a, m.enemies, a.len() as int) == m.score + newly_dying(a, r.enemies, a.len() as int)
            &&& newly_dying(a, r.enemies, a.len() as int) <= newly_dying(a, m.enemies, a.len() as int) + 1
            &&& forall|i: int| 0 <= i < m.enemies.len() && !enemy_active(m.enemies[i]) ==> #[trigger] r.enemies[i] == m.enemies[i]
            &&& forall|i: int| 0 <= i < m.enemies.len() ==> (#[trigger] r.enemies[i]).max_hp == m.enemies[i].max_hp
            &&& r.player.hp == m.player.hp && r.player.max_hp == m.player.max_hp
            &&& r.player.dying == m.player.dying && r.player.death_anim == m.player.death_anim
            &&& r.game_over == m.game_over
        }),
{
    let r = player_weapons_model(m, f);
    let target = melee_target_from(m.enemies, f.melee_reach, 0);
    let n = a.len() as int;
    let p0 = if f.reload { PlayerState { spray: spray_of(0, m.player.spray.reset_timer), ..m.player } } else { m.player };
    let p1 = player_trigger_spec(p0, f.trigger_down, f.can_fire, f.has_aim).0;
    let p2 = if f.melee_key && p1.melee.timer == 0 && p1.melee.cooldown == 0 {
        PlayerState { melee: melee_of(MELEE_FRAMES, 0, false), ..p1 }
    } else {
        p1
    };
    let (mm, landed) = melee_tick(p2.melee, target is Some);
    if !landed {
        assert(r.enemies == m.enemies);
        assert(r.score == m.score);
    } else {
        lemma_target_found(m.enemies, f.melee_reach, 0);
        let j = target->0 as int;
        let e = melee_blow(m.enemies[j]);
        assert(enemy_wf(m.enemies[j]));
        if e.dying {
            lemma_one_falls(a, m.enemies, j, e, n);
            assert forall|k: int| 0 <= k < a.len() && #[trigger] fell(a, r.enemies, k) implies r.enemies[k].death_anim == 0
                && r.enemies[k].alive by {
                if k != j {
                    assert(fell(a, m.enemies, k));
                }
            }
        } else {
            assert(same_lives(m.enemies, r.enemies));
            lemma_same_lives(a, m.enemies, r.enemies);
        }
        assert forall|k: int| 0 <= k < r.enemies.len() implies enemy_wf(#[trigger] r.enemies[k]) by {
            assert(enemy_wf(m.enemies[k]));
        }
    }
}

} // verus!

verus! {

proof fn lemma_count_none(a: Seq<EnemyState>, k: int)
    ensures
        newly_dying(a, a, k) == 0,
    decreases k,
{
    if k > 0 {
        lemma_count_none(a, k - 1);
    }
}

/// What one frame of play does to the enemies and the score: the enemies
/// stay well formed and as many; the score rises by exactly the number of
/// enemies that started dying in the frame (melee, head or body shots),
/// each counted once, whenever that new score fits in a `u32`; an enemy that fell is at its death animation's first
/// frame; and an enemy that was out of play (dying or dead) goes through
/// exactly one step of its death and respawn cycle, coming back as a fresh
/// enemy when it respawns.
pub proof fn lemma_frame_enemies(m: GameModel, f: FrameInput)
    requires
        enemies_wf(m.enemies),
        input_fits(m, f),
    ensures
        ({
            let r = play_frame_model(m, f);
            let a = m.enemies;
            &&& r.enemies.len() == a.len()
            &&& enemies_wf(r.enemies)
            &&& m.score + newly_dying(a, r.enemies, a.len() as int) <= u32::MAX ==>
                r.score == m.score + newly_dying(a, r.enemies, a.len() as int)
            &&& forall|i: int| 0 <= i < a.len() && #[trigger] fell(a, r.enemies, i) ==>
                r.enemies[i].alive && r.enemies[i].death_anim == 1
            &&& forall|i: int| 0 <= i < a.len() && !enemy_active(a[i]) ==>
                same_life(#[trigger] r.enemies[i], lifecycle_step(a[i]).0)
                && (lifecycle_step(a[i]).1 ==> r.enemies[i] == fresh_enemy())
        }),
{
    let a = m.enemies;
    let n = a.len() as int;
    let m3 = turns_stage(m, f);
    let m8 = combat_stage(m3, f);
    let r = play_frame_model(m, f);
    lemma_turns_stage(m, f);
    lemma_combat_stage(a, m3, f);
    lemma_closing_stage(a, m8, f);
    assert forall|i: int| 0 <= i < n && !enemy_active(a[i]) implies same_life(#[trigger] r.enemies[i], lifecycle_step(a[i]).0)
        && (lifecycle_step(a[i]).1 ==> r.enemies[i] == fresh_enemy()) by {
        assert(enemy_wf(a[i]));
        assert(same_life(m3.enemies[i], a[i]));
        assert(!enemy_active(m3.enemies[i]));
    }
}

proof fn lemma_turns_stage(m: GameModel, f: FrameInput)
    requires
        enemies_wf(m.enemies),
    ensures
        ({
            let r = turns_stage(m, f);
            &&& same_lives(m.enemies, r.enemies)
            &&& enemies_wf(r.enemies)
            &&& deaths_kept(m.enemies, r.enemies)
            &&& newly_dying(m.enemies, r.enemies, m.enemies.len() as int) == 0
            &&& r.score == m.score
            &&& forall|i: int| 0 <= i < m.enemies.len() ==> same_life(#[trigger] r.enemies[i], m.enemies[i])
        }),
{
    let a = m.enemies;
    let n = a.len() as int;
    let m1 = GameModel {
        player: PlayerState {
            hit_flash: if m.player.hit_flash > 0 { (m.player.hit_flash - 1) as u32 } else { 0 },
            ..m.player
        },
        ..m
    };
    let m2 = GameModel { rng: xorshift_iter(m1.rng, 3 * planned_before(m1.enemies, n)), ..m1 };
    assert(deaths_kept(a, a));
    lemma_count_none(a, n);
    lemma_turns_enemies(m2, m1.enemies, m1.rng, f, n);
    lemma_same_lives(a, a, turns_stage(m, f).enemies);
}

proof fn lemma_combat_stage(a: Seq<EnemyState>, m: GameModel, f: FrameInput)
    requires
        enemies_wf(m.enemies),
        deaths_kept(a, m.enemies),
        newly_dying(a, m.enemies, a.len() as int) == 0,
        input_fits(m, f),
        forall|i: int| 0 <= i < a.len() ==> same_life(#[trigger] m.enemies[i], a[i]) && m.enemies[i].max_hp == a[i].max_hp,
    ensures
        ({
            let r = combat_stage(m, f);
            &&& enemies_wf(r.enemies)
            &&& deaths_kept(a, r.enemies)
            &&& m.score + newly_dying(a, r.enemies, a.len() as int) <= u32::MAX ==>
                r.score == m.score + newly_dying(a, r.enemies, a.len() as int)
            &&& forall|i: int| 0 <= i < a.len() && !enemy_active(a[i]) ==>
                same_life(#[trigger] r.enemies[i], a[i]) && r.enemies[i].max_hp == a[i].max_hp
        }),
{
    let n = a.len() as int;
    let m4 = heal_flashes_model(m);
    let m5 = pickup_model(m4, f);
    let m6 = player_weapons_model(m5, f);
    let m7 = shots_model(m6, f.head_hits, HEAD_DAMAGE);
    let m8 = shots_model(m7, f.body_hits, BODY_DAMAGE);
    assert(same_lives(m.enemies, m4.enemies));
    lemma_same_lives(a, m.enemies, m4.enemies);
    assert(enemies_wf(m4.enemies)) by {
        assert forall|i: int| 0 <= i < m4.enemies.len() implies enemy_wf(#[trigger] m4.enemies[i]) by {
            assert(enemy_wf(m.enemies[i]));
        }
    }
    lemma_pickup(m4, f);
    lemma_same_lives(a, m4.enemies, m5.enemies);
    lemma_weapons(a, m5, f);
    lemma_shots_count(a, m6.enemies, f.head_hits, HEAD_DAMAGE);
    lemma_shots_wf(m6.enemies, f.head_hits, HEAD_DAMAGE);
    lemma_shots_count(a, m7.enemies, f.body_hits, BODY_DAMAGE);
    lemma_shots_wf(m7.enemies, f.body_hits, BODY_DAMAGE);
    assert forall|i: int| 0 <= i < n && !enemy_active(a[i]) implies same_life(#[trigger] m8.enemies[i], a[i])
        && m8.enemies[i].max_hp == a[i].max_hp by {
        assert(same_life(m5.enemies[i], a[i]));
        assert(m6.enemies[i] == m5.enemies[i]);
        assert(m7.enemies[i] == m6.enemies[i]);
    }
}

proof fn lemma_closing_stage(a: Seq<EnemyState>, m: GameModel, f: FrameInput)
    requires
        enemies_wf(m.enemies),
        deaths_kept(a, m.enemies),
    ensures
        ({
            let r = closing_stage(m, f);
            &&& r.enemies == lifecycles(m.enemies)
            &&& r.score == m.score
            &&& enemies_wf(r.enemies)
            &&& newly_dying(a, r.enemies, a.len() as int) == newly_dying(a, m.enemies, a.len() as int)
            &&& forall|i: int| 0 <= i < a.len() && #[trigger] fell(a, r.enemies, i) ==>
                r.enemies[i].alive && r.enemies[i].death_anim == 1
        }),
{
    let r = closing_stage(m, f);
    lemma_lifecycles_count(a, m.enemies);
    assert forall|i: int| 0 <= i < a.len() && #[trigger] fell(a, r.enemies, i) implies r.enemies[i].alive
        && r.enemies[i].death_anim == 1 by {
        assert(fell(a, m.enemies, i));
    }
    assert forall|i: int| 0 <= i < r.enemies.len() implies enemy_wf(#[trigger] r.enemies[i]) by {
        assert(enemy_wf(m.enemies[i]));
        crate::enemies::lemma_lifecycle_keeps_wf(m.enemies[i]);
    }
}

} // verus!

verus! {

proof fn lemma_hurt_n(p: PlayerState, dmg: i32, n: nat)
    requires
        player_wf(p),
        dmg >= 0,
        p.hp - dmg * n >= i32::MIN,
    ensures
        player_wf(hurt_player_n(p, dmg, n).0),
        hurt_player_n(p, dmg, n).0.hp >= p.hp - dmg * n,
        hurt_player_n(p, dmg, n).0.max_hp == p.max_hp,
        !p.dying && hurt_player_n(p, dmg, n).0.dying ==> hurt_player_n(p, dmg, n).0.death_anim == 0,
        p.dying ==> hurt_player_n(p, dmg, n).0.dying && hurt_player_n(p, dmg, n).0.death_anim == p.death_anim,
    decreases n,
{
    if n > 0 {
        assert(dmg * (n - 1) <= dmg * n) by (nonlinear_arith)
            requires dmg >= 0, n > 0;
        lemma_hurt_n(p, dmg, (n - 1) as nat);
        let q = hurt_player_n(p, dmg, (n - 1) as nat).0;
        assert(q.hp - dmg >= i32::MIN) by (nonlinear_arith)
            requires q.hp >= p.hp - dmg * (n - 1), p.hp - dmg * n >= i32::MIN, n > 0;
        assert(q.hp - dmg >= p.hp - dmg * n) by (nonlinear_arith)
            requires q.hp >= p.hp - dmg * (n - 1), n > 0;
        lemma_hurt_keeps_wf(q, dmg);
    }
}

proof fn lemma_turns_stage_player(m: GameModel, f: FrameInput)
    requires
        player_wf(m.player),
        m.player.hp - MELEE_DAMAGE * m.enemies.len() >= i32::MIN,
    ensures
        ({
            let r = turns_stage(m, f);
            &&& player_wf(r.player)
            &&& r.player.hp >= m.player.hp - MELEE_DAMAGE * m.enemies.len()
            &&& r.player.max_hp == m.player.max_hp
            &&& !m.player.dying && r.player.dying ==> r.player.death_anim == 0
            &&& m.player.dying ==> r.player.dying && r.player.death_anim == m.player.death_anim
            &&& r.game_over == m.game_over
        }),
{
    let n = m.enemies.len() as int;
    let m1 = GameModel {
        player: PlayerState {
            hit_flash: if m.player.hit_flash > 0 { (m.player.hit_flash - 1) as u32 } else { 0 },
            ..m.player
        },
        ..m
    };
    let m2 = GameModel { rng: xorshift_iter(m1.rng, 3 * planned_before(m1.enemies, n)), ..m1 };
    lemma_turns(m2, m1.enemies, m1.rng, f, n);
}

proof fn lemma_combat_stage_player(m: GameModel, f: FrameInput)
    requires
        player_wf(m.player),
        enemies_wf(m.enemies),
        input_fits(m, f),
    ensures
        ({
            let r = combat_stage(m, f);
            &&& player_wf(r.player)
            &&& r.player.hp >= m.player.hp
            &&& r.player.max_hp == m.player.max_hp
            &&& r.player.dying == m.player.dying && r.player.death_anim == m.player.death_anim
            &&& r.game_over == m.game_over
        }),
{
    let m4 = heal_flashes_model(m);
    assert(enemies_wf(m4.enemies)) by {
        assert forall|i: int| 0 <= i < m4.enemies.len() implies enemy_wf(#[trigger] m4.enemies[i]) by {
            assert(enemy_wf(m.enemies[i]));
        }
    }
    lemma_pickup(m4, f);
    let m5 = pickup_model(m4, f);
    assert(deaths_kept(m5.enemies, m5.enemies));
    assert(enemies_wf(m5.enemies)) by {
        assert forall|i: int| 0 <= i < m5.enemies.len() implies enemy_wf(#[trigger] m5.enemies[i]) by {}
    }
    lemma_weapons(m5.enemies, m5, f);
}

/// One frame of play keeps the player well formed (hit points at most the
/// unchanged maximum, and above zero unless dying), starts a death at the
/// animation's first frame, and never ends or restarts a death animation.
pub proof fn lemma_frame_player(m: GameModel, f: FrameInput)
    requires
        model_wf(m),
        input_fits(m, f),
        m.player.hp - MELEE_DAMAGE * m.enemies.len() - ENEMY_DAMAGE * f.projectile_hits >= i32::MIN,
    ensures
        ({
            let r = play_frame_model(m, f);
            &&& model_wf(r)
            &&& r.player.max_hp == m.player.max_hp
            &&& !m.player.dying && r.player.dying ==> r.player.death_anim == 0
            &&& m.player.dying ==> r.player.dying && r.player.death_anim == m.player.death_anim
        }),
{
    lemma_frame_enemies(m, f);
    lemma_turns_enemies_stage(m, f);
    lemma_turns_stage_player(m, f);
    let m3 = turns_stage(m, f);
    lemma_combat_stage_player(m3, f);
    let m8 = combat_stage(m3, f);
    lemma_hurt_n(m8.player, ENEMY_DAMAGE, f.projectile_hits);
}

proof fn lemma_turns_enemies_stage(m: GameModel, f: FrameInput)
    requires
        enemies_wf(m.enemies),
        input_fits(m, f),
    ensures
        enemies_wf(turns_stage(m, f).enemies),
        input_fits(turns_stage(m, f), f),
{
    lemma_turns_stage(m, f);
}

} // verus!

verus! {

/// The state after one frame of play per entry of `fs`, in order.
pub open spec fn play_frames(m: GameModel, fs: Seq<FrameInput>) -> GameModel
    decreases fs.len(),
{
    if fs.len() == 0 {
        m
    } else {
        play_frames(play_frame_model(m, fs[0]), fs.drop_first())
    }
}

/// Every input of `fs` fits a game of `n` enemies.
pub open spec fn inputs_fit(fs: Seq<FrameInput>, n: nat) -> bool {
    forall|k: int| 0 <= k < fs.len() ==> {
        &&& (#[trigger] fs[k]).enemy.len() == n
        &&& fs[k].enemies_near_pickup.len() == n
        &&& fs[k].melee_reach.len() == n
    }
}

/// Frames of play until an enemy that is out of play comes back: the rest
/// of its death animation and the whole respawn delay when dying, the rest
/// of the delay and one frame when dead.
pub open spec fn frames_to_return(e: EnemyState) -> int {
    if e.dying {
        DEATH_TOTAL_FRAMES - e.death_anim + RESPAWN_FRAMES
    } else {
        e.death_timer + 1
    }
}

proof fn lemma_frame_out_of_play(m: GameModel, f: FrameInput, i: int)
    requires
        enemies_wf(m.enemies),
        input_fits(m, f),
        0 <= i < m.enemies.len(),
        !enemy_active(m.enemies[i]),
    ensures
        ({
            let e = m.enemies[i];
            let r = play_frame_model(m, f);
            let x = r.enemies[i];
            &&& r.enemies.len() == m.enemies.len()
            &&& enemies_wf(r.enemies)
            &&& frames_to_return(e) == 1 ==> x == fresh_enemy()
            &&& frames_to_return(e) > 1 ==> !enemy_active(x) && frames_to_return(x) == frames_to_return(e) - 1
            &&& e.dying && e.death_anim + 1 < DEATH_TOTAL_FRAMES ==> x.alive && x.dying && x.death_anim == e.death_anim + 1
            &&& !(e.dying && e.death_anim + 1 < DEATH_TOTAL_FRAMES) && frames_to_return(e) > 1 ==>
                !x.alive && !x.dying && x.death_timer == frames_to_return(e) - 2
        }),
{
    lemma_frame_enemies(m, f);
    assert(enemy_wf(m.enemies[i]));
}

/// An enemy out of play (dying or dead) stays out of play through every
/// frame of play until `frames_to_return` frames have passed, whatever
/// happens meanwhile: its death animation advances one frame per frame,
/// then it lies removed with the respawn delay counting down; in the last
/// of these frames it returns as a fresh enemy with full hit points. An
/// enemy killed in a frame is at its animation's first frame after it (see
/// `lemma_frame_enemies`), so it returns DEATH_TOTAL_FRAMES - 1 +
/// RESPAWN_FRAMES frames later.
pub proof fn lemma_out_of_play_frames(m: GameModel, fs: Seq<FrameInput>, i: int)
    requires
        enemies_wf(m.enemies),
        inputs_fit(fs, m.enemies.len()),
        0 <= i < m.enemies.len(),
        !enemy_active(m.enemies[i]),
        fs.len() <= frames_to_return(m.enemies[i]),
    ensures
        ({
            let e = m.enemies[i];
            let k = fs.len() as int;
            let r = play_frames(m, fs);
            let x = r.enemies[i];
            &&& r.enemies.len() == m.enemies.len()
            &&& enemies_wf(r.enemies)
            &&& k == frames_to_return(e) ==> x == fresh_enemy()
            &&& k < frames_to_return(e) ==> !enemy_active(x) && frames_to_return(x) == frames_to_return(e) - k
            &&& e.dying && e.death_anim + k < DEATH_TOTAL_FRAMES ==> x.alive && x.dying && x.death_anim == e.death_anim + k
            &&& !(e.dying && e.death_anim + k < DEATH_TOTAL_FRAMES) && k < frames_to_return(e) ==>
                !x.alive && !x.dying && x.death_timer == frames_to_return(e) - k - 1
        }),
    decreases fs.len(),
{
    let e = m.enemies[i];
    if fs.len() > 0 {
        let m1 = play_frame_model(m, fs[0]);
        assert(input_fits(m, fs[0]));
        lemma_frame_out_of_play(m, fs[0], i);
        let rest = fs.drop_first();
        if fs.len() > 1 {
            assert(inputs_fit(rest, m1.enemies.len())) by {
                assert forall|k: int| 0 <= k < rest.len() implies {
                    &&& (#[trigger] rest[k]).enemy.len() == m1.enemies.len()
                    &&& rest[k].enemies_near_pickup.len() == m1.enemies.len()
                    &&& rest[k].melee_reach.len() == m1.enemies.len()
                } by {
                    assert(rest[k] == fs[k + 1]);
                }
            }
            lemma_out_of_play_frames(m1, rest, i);
        } else {
            assert(play_frames(m1, rest) == m1);
        }
    }
}

} // verus!

verus! {

/// A whole frame of the program on the game's value: the start of the
/// frame with Escape held as `escape`, and, when that start leads to play,
/// the rules of the frame of play; the start screen, the pause menu, the
/// game-over screen, the player's death animation and the countdown apply
/// no further rule.
pub open spec fn frame_model(s: crate::rules::GameState, escape: bool, f: FrameInput) -> GameModel {
    let (s1, start) = crate::rules::begin_frame_spec(s, escape);
    if start.phase == crate::rules::Phase::Playing {
        play_frame_model(s1@, f)
    } else {
        s1@
    }
}

/// In every frame the score rises by exactly the number of enemies that
/// started dying in it, each counted once, and the number of enemies is
/// unchanged; this holds whenever the new score fits in a `u32`.
pub proof fn lemma_frame_counts_kills(s: crate::rules::GameState, escape: bool, f: FrameInput)
    requires
        s.wf(),
        input_fits(s@, f),
        s.score + newly_dying(s.enemies@, frame_model(s, escape, f).enemies, s.enemies@.len() as int) <= u32::MAX,
    ensures
        frame_model(s, escape, f).enemies.len() == s.enemies@.len(),
        frame_model(s, escape, f).score == s.score + newly_dying(s.enemies@, frame_model(s, escape, f).enemies, s.enemies@.len() as int),
{
    let (s1, start) = crate::rules::begin_frame_spec(s, escape);
    assert(s1.enemies@ == s.enemies@ && s1.score == s.score);
    if start.phase == crate::rules::Phase::Playing {
        lemma_frame_enemies(s1@, f);
    } else {
        lemma_count_none(s.enemies@, s.enemies@.len() as int);
    }
}

/// Every frame keeps the game's invariant: the player's hit points stay at
/// most the unchanged maximum and above zero unless dying, a death starts
/// at the animation's first frame, and the enemies stay well formed.
pub proof fn lemma_frame_keeps_invariant(s: crate::rules::GameState, escape: bool, f: FrameInput)
    requires
        s.wf(),
        input_fits(s@, f),
        s.player.hp - MELEE_DAMAGE * s.enemies@.len() - ENEMY_DAMAGE * f.projectile_hits >= i32::MIN,
    ensures
        model_wf(frame_model(s, escape, f)),
        frame_model(s, escape, f).player.max_hp == s.player.max_hp,
        !s.player.dying && frame_model(s, escape, f).player.dying ==> frame_model(s, escape, f).player.death_anim == 0,
{
    let (s1, start) = crate::rules::begin_frame_spec(s, escape);
    assert(s1.player.hp == s.player.hp && s1.enemies@ == s.enemies@);
    if start.phase == crate::rules::Phase::Playing {
        assert(s1.player == s.player);
        lemma_frame_player(s1@, f);
    }
}

} // verus!
