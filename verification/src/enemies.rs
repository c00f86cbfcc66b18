use vstd::prelude::*;
use crate::rng::{Rng, xorshift_step, xorshift_iter};
use crate::ai::{AiRoll, EnemyAction, ai_roll_from, action_table, random_action};
use crate::melee::melee_of;
use crate::spray::spray_of;
use crate::rules::{GameState, EnemyState, enemy_wf, enemy_active, DEATH_TOTAL_FRAMES, RESPAWN_FRAMES, FIRST_ACTION_FRAMES};

verus! {

/// An enemy picks a new action when it is alive and its action has run out.
pub open spec fn needs_action(e: EnemyState) -> bool {
    e.alive && e.action_timer == 0
}

/// How many of the first `i` enemies pick a new action.
pub open spec fn planned_before(es: Seq<EnemyState>, i: int) -> nat
    decreases i,
{
    if i <= 0 {
        0
    } else {
        planned_before(es, i - 1) + if needs_action(es[i - 1]) { 1nat } else { 0nat }
    }
}

/// The plan for enemy `i` when planning starts from generator state `s`:
/// the enemies before it that pick an action use three draws each.
pub open spec fn planned_roll(es: Seq<EnemyState>, s: u32, i: int) -> Option<AiRoll> {
    if needs_action(es[i]) {
        Some(ai_roll_from(xorshift_iter(s, 3 * planned_before(es, i))))
    } else {
        None
    }
}

/// Enemy `e` at the start of its turn: a new action and duration if one was
/// planned, then one frame off its action timer.
pub open spec fn begin_turn(e: EnemyState, plan: Option<(EnemyAction, u32)>) -> EnemyState {
    let (action, timer) = match plan {
        Some((a, d)) => (a, d),
        None => (e.action, e.action_timer),
    };
    EnemyState { action, action_timer: if timer > 0 { (timer - 1) as u32 } else { 0 }, ..e }
}

/// Enemy `e` back in play after its respawn delay: full hit points, a fresh
/// first action and idle weapon timers.
pub open spec fn respawned(e: EnemyState) -> EnemyState {
    EnemyState {
        hp: e.max_hp,
        alive: true,
        dying: false,
        death_anim: 0,
        action: action_table(0),
        action_timer: FIRST_ACTION_FRAMES,
        heal_flash: 0,
        melee: melee_of(0, 0, false),
        spray: spray_of(0, 0),
        ..e
    }
}

/// One frame of an enemy's death and respawn cycle: the death animation
/// advances and, when it ends, the enemy is removed with the respawn delay
/// set; a removed enemy counts the delay down and then respawns. The flag
/// tells whether the enemy respawned in this frame.
pub open spec fn lifecycle_step(e: EnemyState) -> (EnemyState, bool) {
    let e1 = if e.dying && e.alive {
        let a = (e.death_anim + 1) as u32;
        if a >= DEATH_TOTAL_FRAMES {
            EnemyState { alive: false, dying: false, death_anim: 0, death_timer: RESPAWN_FRAMES, ..e }
        } else {
            EnemyState { death_anim: a, ..e }
        }
    } else {
        e
    };
    if !e1.alive {
        if e1.death_timer > 0 {
            (EnemyState { death_timer: (e1.death_timer - 1) as u32, ..e1 }, false)
        } else {
            (respawned(e1), true)
        }
    } else {
        (e1, false)
    }
}

/// The enemy after `n` frames of its death and respawn cycle.
pub open spec fn lifecycle_run(e: EnemyState, n: nat) -> EnemyState
    decreases n,
{
    if n == 0 {
        e
    } else {
        lifecycle_run(lifecycle_step(e).0, (n - 1) as nat)
    }
}

proof fn lemma_iter_step(s: u32, n: nat)
    ensures
        xorshift_iter(s, n + 1) == xorshift_step(xorshift_iter(s, n)),
{
}

proof fn lemma_iter_three(s: u32, n: nat)
    ensures
        xorshift_iter(s, n + 3) == xorshift_step(xorshift_step(xorshift_step(xorshift_iter(s, n)))),
{
    lemma_iter_step(s, n);
    lemma_iter_step(s, n + 1);
    lemma_iter_step(s, n + 2);
}

pub(crate) proof fn lemma_lifecycle_keeps_wf(e: EnemyState)
    requires
        enemy_wf(e),
    ensures
        enemy_wf(lifecycle_step(e).0),
{
}

impl GameState {
    /// Every alive enemy whose action has run out gets three draws for its
    /// next action, in enemy order; dying enemies draw too, though they do
    /// not act on it. `plans[i]` is enemy `i`'s draws, if it drew.
    pub fn plan_enemy_actions(&mut self) -> (plans: Vec<Option<AiRoll>>)
        requires
            old(self).wf(),
        ensures
            final(self)@ == crate::frame::plan_model(old(self)@),
            final(self).wf(),
            plans@.len() == old(self).enemies@.len(),
            forall|i: int| 0 <= i < plans@.len() ==>
                #[trigger] plans@[i] == planned_roll(old(self).enemies@, old(self).rng.state, i),
            *final(self) == (GameState {
                rng: Rng {
                    state: xorshift_iter(old(self).rng.state, 3 * planned_before(old(self).enemies@, old(self).enemies@.len() as int)),
                },
                ..*old(self)
            }),
    {
        let ghost es = self.enemies@;
        let ghost s0 = self.rng.state;
        let mut rng = self.rng;
        let mut plans: Vec<Option<AiRoll>> = Vec::new();
        let n = self.enemies.len();
        let mut i: usize = 0;
        while i < n
            invariant
                0 <= i <= n,
                n == es.len(),
                es == self.enemies@,
                plans@.len() == i,
                rng.state == xorshift_iter(s0, 3 * planned_before(es, i as int)),
                forall|j: int| 0 <= j < i ==> #[trigger] plans@[j] == planned_roll(es, s0, j),
            decreases n - i,
        {
            let e = self.enemies[i];
            if e.alive && e.action_timer == 0 {
                proof {
                    lemma_iter_three(s0, 3 * planned_before(es, i as int));
                }
                let roll = random_action(&mut rng);
                plans.push(Some(roll));
            } else {
                plans.push(None);
            }
            assert(planned_before(es, i + 1) == planned_before(es, i as int) + if needs_action(es[i as int]) { 1nat } else { 0nat });
            i = i + 1;
        }
        self.rng = rng;
        plans
    }

    /// Enemy `i`, active, starts its turn: it takes the planned action and
    /// duration, if any, and its action timer counts down one frame.
    pub fn begin_enemy_turn(&mut self, i: usize, plan: Option<(EnemyAction, u32)>)
        requires
            old(self).wf(),
            i < old(self).enemies@.len(),
            enemy_active(old(self).enemies@[i as int]),
        ensures
            final(self)@ == crate::frame::begin_turn_model(old(self)@, i as int, plan),
            final(self).wf(),
            final(self).enemies@ == old(self).enemies@.update(i as int, begin_turn(old(self).enemies@[i as int], plan)),
            *final(self) == (GameState { enemies: final(self).enemies, ..*old(self) }),
    {
        let mut e = self.enemies[i];
        match plan {
            Some((action, duration)) => {
                e.action = action;
                e.action_timer = duration;
            },
            None => {},
        }
        if e.action_timer > 0 {
            e.action_timer = e.action_timer - 1;
        }
        self.enemies.set(i, e);
        assert forall|j: int| 0 <= j < self.enemies@.len() implies enemy_wf(#[trigger] self.enemies@[j]) by {
            assert(enemy_wf(old(self).enemies@[j]));
        }
    }

    /// Two draws per enemy, in enemy order, for the place where it would
    /// respawn this frame.
    pub fn draw_spawn_rolls(&mut self) -> (rolls: Vec<(u32, u32)>)
        requires
            old(self).wf(),
        ensures
            final(self)@ == crate::frame::spawn_rolls_model(old(self)@),
            final(self).wf(),
            rolls@.len() == old(self).enemies@.len(),
            forall|i: int| 0 <= i < rolls@.len() ==> #[trigger] rolls@[i] == (
                xorshift_iter(old(self).rng.state, (2 * i + 1) as nat),
                xorshift_iter(old(self).rng.state, (2 * i + 2) as nat),
            ),
            *final(self) == (GameState {
                rng: Rng { state: xorshift_iter(old(self).rng.state, 2 * old(self).enemies@.len()) },
                ..*old(self)
            }),
    {
        let ghost s0 = self.rng.state;
        let mut rng = self.rng;
        let mut rolls: Vec<(u32, u32)> = Vec::new();
        let n = self.enemies.len();
        let mut i: usize = 0;
        while i < n
            invariant
                0 <= i <= n,
                n == self.enemies@.len(),
                rolls@.len() == i,
                rng.state == xorshift_iter(s0, 2 * i as nat),
                forall|j: int| 0 <= j < i ==> #[trigger] rolls@[j] == (
                    xorshift_iter(s0, (2 * j + 1) as nat),
                    xorshift_iter(s0, (2 * j + 2) as nat),
                ),
            decreases n - i,
        {
            proof {
                lemma_iter_step(s0, 2 * i as nat);
                lemma_iter_step(s0, (2 * i + 1) as nat);
            }
            let a = rng.next_u32();
            let b = rng.next_u32();
            rolls.push((a, b));
            i = i + 1;
        }
        self.rng = rng;
        rolls
    }

    /// One frame of every enemy's death and respawn cycle; see
    /// `lifecycle_step`. `respawned[i]` tells whether enemy `i` came back
    /// this frame.
    pub fn advance_enemy_lifecycles(&mut self) -> (respawned: Vec<bool>)
        requires
            old(self).wf(),
        ensures
            final(self)@ == crate::frame::lifecycles_model(old(self)@),
            final(self).wf(),
            respawned@.len() == old(self).enemies@.len(),
            final(self).enemies@.len() == old(self).enemies@.len(),
            forall|i: int| 0 <= i < respawned@.len() ==>
                (#[trigger] final(self).enemies@[i], respawned@[i]) == lifecycle_step(old(self).enemies@[i]),
            *final(self) == (GameState { enemies: final(self).enemies, ..*old(self) }),
    {
        let mut out: Vec<EnemyState> = Vec::new();
        let mut respawned: Vec<bool> = Vec::new();
        let n = self.enemies.len();
        let mut i: usize = 0;
        while i < n
            invariant
                0 <= i <= n,
                n == self.enemies@.len(),
                self.wf(),
                out@.len() == i,
                respawned@.len() == i,
                forall|j: int| 0 <= j < i ==> (#[trigger] out@[j], respawned@[j]) == lifecycle_step(self.enemies@[j]),
            decreases n - i,
        {
            let mut e = self.enemies[i];
            if e.dying && e.alive {
                e.death_anim = e.death_anim + 1;
                if e.death_anim >= DEATH_TOTAL_FRAMES {
                    e.alive = false;
                    e.dying = false;
                    e.death_anim = 0;
                    e.death_timer = RESPAWN_FRAMES;
                }
            }
            let mut back = false;
            if !e.alive {
                if e.death_timer > 0 {
                    e.death_timer = e.death_timer - 1;
                } else {
                    e.hp = e.max_hp;
                    e.alive = true;
                    e.dying = false;
                    e.death_anim = 0;
                    e.action = EnemyAction::idle();
                    e.action_timer = FIRST_ACTION_FRAMES;
                    e.heal_flash = 0;
                    e.melee = crate::melee::MeleeState::new();
                    e.spray = crate::spray::SprayState::new();
                    back = true;
                }
            }
            out.push(e);
            respawned.push(back);
            i = i + 1;
        }
        proof {
            assert forall|j: int| 0 <= j < out@.len() implies enemy_wf(#[trigger] out@[j]) by {
                assert(enemy_wf(self.enemies@[j]));
                lemma_lifecycle_keeps_wf(self.enemies@[j]);
            }
        }
        self.enemies = out;
        assert(self.enemies@ =~= crate::frame::lifecycles(old(self).enemies@));
        respawned
    }
}

/// An enemy stays removed for the rest of its respawn delay and one more
/// frame, then comes back with full hit points.
proof fn lemma_removed_enemy_returns(e: EnemyState, n: nat)
    requires
        enemy_wf(e),
        !e.alive,
        n <= e.death_timer + 1,
    ensures
        n <= e.death_timer ==> !lifecycle_run(e, n).alive
            && lifecycle_run(e, n) == (EnemyState { death_timer: (e.death_timer - n) as u32, ..e }),
        n == e.death_timer + 1 ==> lifecycle_run(e, n) == respawned(EnemyState { death_timer: 0, ..e }),
    decreases n,
{
    if n > 0 {
        let e1 = lifecycle_step(e).0;
        if e.death_timer > 0 {
            lemma_removed_enemy_returns(e1, (n - 1) as nat);
        } else {
            assert(lifecycle_run(e1, 0) == e1);
        }
    }
}

/// The death animation of a dying enemy plays out frame by frame; when it
/// ends, the enemy is removed with RESPAWN_FRAMES - 1 frames of delay left.
proof fn lemma_dying_enemy_falls(e: EnemyState, n: nat)
    requires
        enemy_wf(e),
        e.dying,
        n + e.death_anim < DEATH_TOTAL_FRAMES,
    ensures
        lifecycle_run(e, n) == (EnemyState { death_anim: (e.death_anim + n) as u32, ..e }),
        lifecycle_run(e, (n + 1) as nat) == (EnemyState {
            alive: n + 1 + e.death_anim < DEATH_TOTAL_FRAMES,
            dying: n + 1 + e.death_anim < DEATH_TOTAL_FRAMES,
            death_anim: if n + 1 + e.death_anim < DEATH_TOTAL_FRAMES { (e.death_anim + n + 1) as u32 } else { 0 },
            death_timer: if n + 1 + e.death_anim < DEATH_TOTAL_FRAMES { e.death_timer } else { (RESPAWN_FRAMES - 1) as u32 },
            ..e
        }),
    decreases n,
{
    let e1 = lifecycle_step(e).0;
    if n > 0 {
        lemma_dying_enemy_falls(e1, (n - 1) as nat);
    } else {
        assert(lifecycle_run(e1, 0) == e1);
    }
}

/// An enemy that starts dying is out of play (it neither acts nor can be
/// hit) for exactly DEATH_TOTAL_FRAMES + RESPAWN_FRAMES frames, and then it
/// is back with full hit points and a fresh first action.
pub proof fn lemma_killed_enemy_respawns(e: EnemyState)
    requires
        enemy_wf(e),
        e.dying,
        e.death_anim == 0,
    ensures
        forall|n: nat| n < DEATH_TOTAL_FRAMES + RESPAWN_FRAMES ==> !enemy_active(#[trigger] lifecycle_run(e, n)),
        lifecycle_run(e, (DEATH_TOTAL_FRAMES + RESPAWN_FRAMES) as nat) == respawned(
            EnemyState { alive: false, dying: false, death_anim: 0, death_timer: 0, ..e },
        ),
        lifecycle_run(e, (DEATH_TOTAL_FRAMES + RESPAWN_FRAMES) as nat).hp == e.max_hp,
        enemy_active(lifecycle_run(e, (DEATH_TOTAL_FRAMES + RESPAWN_FRAMES) as nat)),
{
    assert forall|n: nat| n < DEATH_TOTAL_FRAMES + RESPAWN_FRAMES implies !enemy_active(#[trigger] lifecycle_run(e, n)) by {
        if n < DEATH_TOTAL_FRAMES {
            lemma_dying_enemy_falls(e, n);
        } else {
            lemma_dying_enemy_falls(e, (DEATH_TOTAL_FRAMES - 1) as nat);
            let d = lifecycle_run(e, DEATH_TOTAL_FRAMES as nat);
            lemma_run_split(e, DEATH_TOTAL_FRAMES as nat, (n - DEATH_TOTAL_FRAMES) as nat);
            lemma_removed_enemy_returns(d, (n - DEATH_TOTAL_FRAMES) as nat);
        }
    }
    lemma_dying_enemy_falls(e, (DEATH_TOTAL_FRAMES - 1) as nat);
    let d = lifecycle_run(e, DEATH_TOTAL_FRAMES as nat);
    lemma_run_split(e, DEATH_TOTAL_FRAMES as nat, RESPAWN_FRAMES as nat);
    lemma_removed_enemy_returns(d, RESPAWN_FRAMES as nat);
}

pub(crate) proof fn lemma_run_split(e: EnemyState, a: nat, b: nat)
    ensures
        lifecycle_run(e, a + b) == lifecycle_run(lifecycle_run(e, a), b),
    decreases a,
{
    if a > 0 {
        lemma_run_split(lifecycle_step(e).0, (a - 1) as nat, b);
    }
}

/// One step of the death and respawn cycle leaves an enemy in play (alive
/// and not dying) exactly as it was, hit points and every other field, and
/// reports no respawn for it.
pub proof fn lemma_lifecycle_keeps_active(e: EnemyState)
    requires
        enemy_active(e),
    ensures
        lifecycle_step(e).0 == e,
        !lifecycle_step(e).1,
{
}

} // verus!
