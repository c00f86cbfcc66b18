use vstd::prelude::*;
use crate::melee::melee_tick;
use crate::spray::{SprayState, spray_rest, RECOIL_RESET_FRAMES};
use crate::rules::{GameState, PlayerState, EnemyState, player_wf, enemy_wf, enemy_active, HIT_FLASH_FRAMES, MELEE_DAMAGE, ENEMY_DAMAGE, HEALTH_PICKUP_AMOUNT, HEAL_FLASH_FRAMES};

verus! {

/// The player after taking `dmg` damage, and whether this blow starts the
/// death: hit points drop, the hit flash restarts, and a living player whose
/// hit points reach zero or below starts dying at exactly zero.
pub open spec fn hurt_player(p: PlayerState, dmg: i32) -> (PlayerState, bool) {
    let hp = p.hp - dmg;
    if hp <= 0 && !p.dying {
        (PlayerState { hp: 0, hit_flash: HIT_FLASH_FRAMES, dying: true, death_anim: 0, ..p }, true)
    } else {
        (PlayerState { hp: hp as i32, hit_flash: HIT_FLASH_FRAMES, ..p }, false)
    }
}

/// The player after `n` blows of `dmg` damage, and whether one of them
/// started the death.
pub open spec fn hurt_player_n(p: PlayerState, dmg: i32, n: nat) -> (PlayerState, bool)
    decreases n,
{
    if n == 0 {
        (p, false)
    } else {
        let (q, fell) = hurt_player_n(p, dmg, (n - 1) as nat);
        let (r, fell_now) = hurt_player(q, dmg);
        (r, fell || fell_now)
    }
}

/// An enemy after a melee blow of the player: its hit points drop and, at
/// zero or below, are set to zero and it starts dying.
pub open spec fn melee_blow(e: EnemyState) -> EnemyState {
    let hp = e.hp - MELEE_DAMAGE;
    if hp <= 0 && !e.dying {
        EnemyState { hp: 0, dying: true, death_anim: 0, ..e }
    } else {
        EnemyState { hp: hp as i32, ..e }
    }
}

/// An enemy after a bullet of `dmg` damage: its hit points drop and, at zero
/// or below, it starts dying (its hit points are left as they are).
pub open spec fn shot_enemy(e: EnemyState, dmg: i32) -> EnemyState {
    let hp = e.hp - dmg;
    if hp <= 0 {
        EnemyState { hp: hp as i32, dying: true, death_anim: 0, ..e }
    } else {
        EnemyState { hp: hp as i32, ..e }
    }
}

/// Hit points after a health pickup: raised by the pickup amount, capped at
/// the maximum.
pub open spec fn healed(hp: i32, max_hp: i32) -> i32 {
    if hp + HEALTH_PICKUP_AMOUNT <= max_hp { (hp + HEALTH_PICKUP_AMOUNT) as i32 } else { max_hp }
}

/// The first enemy at index `k` or later that is active and within the
/// player's swing (`reach`).
pub open spec fn melee_target_from(es: Seq<EnemyState>, reach: Seq<bool>, k: nat) -> Option<nat>
    decreases es.len() - k,
{
    if k >= es.len() {
        None
    } else if enemy_active(es[k as int]) && reach[k as int] {
        Some(k)
    } else {
        melee_target_from(es, reach, k + 1)
    }
}

/// The first enemy at index `k` or later that is alive and close to the
/// health pickup (`near`).
pub open spec fn pickup_taker_from(es: Seq<EnemyState>, near: Seq<bool>, k: nat) -> Option<nat>
    decreases es.len() - k,
{
    if k >= es.len() {
        None
    } else if es[k as int].alive && near[k as int] {
        Some(k)
    } else {
        pickup_taker_from(es, near, k + 1)
    }
}

/// Applies bullets hitting the enemies at the indices `hits`, in order, each
/// with `dmg` damage: the enemies after them and the indices of those that
/// started dying. A bullet whose index names no enemy, or names an enemy
/// that is dead or dying, has no effect.
pub open spec fn shots_apply(es: Seq<EnemyState>, hits: Seq<usize>, dmg: i32) -> (Seq<EnemyState>, Seq<usize>)
    decreases hits.len(),
{
    if hits.len() == 0 {
        (es, Seq::empty())
    } else {
        let (es1, killed) = shots_apply(es, hits.drop_last(), dmg);
        let i = hits.last();
        if i < es1.len() && enemy_active(es1[i as int]) {
            let e = shot_enemy(es1[i as int], dmg);
            (es1.update(i as int, e), if e.dying { killed.push(i) } else { killed })
        } else {
            (es1, killed)
        }
    }
}

pub(crate) proof fn lemma_hurt_keeps_wf(p: PlayerState, dmg: i32)
    requires
        player_wf(p),
        dmg >= 0,
        p.hp - dmg >= i32::MIN,
    ensures
        player_wf(hurt_player(p, dmg).0),
        hurt_player(p, dmg).0.hp >= p.hp - dmg,
        hurt_player(p, dmg).1 ==> hurt_player(p, dmg).0.death_anim == 0,
        hurt_player(p, dmg).0.dying == (p.dying || hurt_player(p, dmg).1),
        !hurt_player(p, dmg).1 ==> hurt_player(p, dmg).0.death_anim == p.death_anim,
{
}

impl GameState {
    /// The hit flash fades by one frame.
    pub fn tick_hit_flash(&mut self)
        requires
            old(self).wf(),
        ensures
            final(self)@ == crate::frame::hit_flash_model(old(self)@),
            final(self).wf(),
            *final(self) == (GameState {
                player: PlayerState {
                    hit_flash: if old(self).player.hit_flash > 0 { (old(self).player.hit_flash - 1) as u32 } else { 0 },
                    ..old(self).player
                },
                ..*old(self)
            }),
    {
        if self.player.hit_flash > 0 {
            self.player.hit_flash = self.player.hit_flash - 1;
        }
    }

    /// Whether enemy `i` fires this frame: its action shoots, developer mode
    /// is off and it is not swinging.
    pub fn enemy_may_shoot(&self, i: usize) -> (b: bool)
        requires
            i < self.enemies@.len(),
        ensures
            b == (self.enemies@[i as int].action.shooting && !self.dev_mode && self.enemies@[i as int].melee.timer == 0),
    {
        let e = self.enemies[i];
        e.action.shooting && !self.dev_mode && !e.melee.swinging()
    }

    /// Whether enemy `i` goes for the player with a melee swing this frame.
    pub fn enemy_wants_melee(&self, i: usize) -> (b: bool)
        requires
            i < self.enemies@.len(),
        ensures
            b == (self.enemies@[i as int].action.melee && !self.dev_mode),
    {
        self.enemies[i].action.melee && !self.dev_mode
    }

    /// One frame of enemy `i`'s melee attack, given whether the player is in
    /// reach; a landed blow hurts the player. Returns whether the player
    /// started dying.
    pub fn enemy_melee_tick(&mut self, i: usize, player_in_reach: bool) -> (fell: bool)
        requires
            old(self).wf(),
            i < old(self).enemies@.len(),
            melee_tick(old(self).enemies@[i as int].melee, player_in_reach).1 ==> old(self).player.hp - MELEE_DAMAGE >= i32::MIN,
        ensures
            final(self)@ == crate::frame::enemy_melee_tick_model(old(self)@, i as int, player_in_reach),
            final(self).wf(),
            ({
                let e = old(self).enemies@[i as int];
                let (m, landed) = melee_tick(e.melee, player_in_reach);
                let (p, f) = if landed { hurt_player(old(self).player, MELEE_DAMAGE) } else { (old(self).player, false) };
                &&& *final(self) == (GameState {
                    enemies: final(self).enemies,
                    player: p,
                    ..*old(self)
                })
                &&& final(self).enemies@ == old(self).enemies@.update(i as int, EnemyState { melee: m, ..e })
                &&& fell == f
            }),
    {
        let mut e = self.enemies[i];
        let landed = e.melee.tick(player_in_reach);
        self.enemies.set(i, e);
        let mut fell = false;
        if landed {
            proof {
                lemma_hurt_keeps_wf(self.player, MELEE_DAMAGE);
            }
            fell = self.hurt_player(MELEE_DAMAGE);
        }
        assert forall|j: int| 0 <= j < self.enemies@.len() implies enemy_wf(#[trigger] self.enemies@[j]) by {
            assert(enemy_wf(old(self).enemies@[j]));
        }
        fell
    }

    fn hurt_player(&mut self, dmg: i32) -> (fell: bool)
        requires
            old(self).player.hp - dmg >= i32::MIN,
            dmg >= 0,
        ensures
            (final(self).player, fell) == hurt_player(old(self).player, dmg),
            *final(self) == (GameState { player: final(self).player, ..*old(self) }),
    {
        self.player.hp = self.player.hp - dmg;
        self.player.hit_flash = HIT_FLASH_FRAMES;
        if self.player.hp <= 0 && !self.player.dying {
            self.player.hp = 0;
            self.player.dying = true;
            self.player.death_anim = 0;
            true
        } else {
            false
        }
    }

    /// Enemy bullets hit the player `count` times this frame, each for
    /// ENEMY_DAMAGE; returns whether the player started dying.
    pub fn player_hit_by_projectiles(&mut self, count: usize) -> (fell: bool)
        requires
            old(self).wf(),
            old(self).player.hp - ENEMY_DAMAGE * count >= i32::MIN,
        ensures
            final(self)@ == crate::frame::projectiles_model(old(self)@, count as nat),
            final(self).wf(),
            (final(self).player, fell) == hurt_player_n(old(self).player, ENEMY_DAMAGE, count as nat),
            *final(self) == (GameState { player: final(self).player, ..*old(self) }),
    {
        let mut fell = false;
        let mut k: usize = 0;
        while k < count
            invariant
                0 <= k <= count,
                old(self).player.hp - ENEMY_DAMAGE * count >= i32::MIN,
                self.player.hp >= old(self).player.hp - ENEMY_DAMAGE * k,
                (self.player, fell) == hurt_player_n(old(self).player, ENEMY_DAMAGE, k as nat),
                *self == (GameState { player: self.player, ..*old(self) }),
                self.wf(),
            decreases count - k,
        {
            proof {
                lemma_hurt_keeps_wf(self.player, ENEMY_DAMAGE);
            }
            let fell_now = self.hurt_player(ENEMY_DAMAGE);
            fell = fell || fell_now;
            k = k + 1;
        }
        fell
    }
}


proof fn lemma_target_shift(es: Seq<EnemyState>, reach: Seq<bool>, k: nat)
    requires
        k < es.len(),
        !(enemy_active(es[k as int]) && reach[k as int]),
    ensures
        melee_target_from(es, reach, k) == melee_target_from(es, reach, k + 1),
{
}

pub(crate) proof fn lemma_target_found(es: Seq<EnemyState>, reach: Seq<bool>, k: nat)
    requires
        melee_target_from(es, reach, k) matches Some(j),
    ensures
        ({
            let j = melee_target_from(es, reach, k)->0;
            &&& k <= j < es.len()
            &&& enemy_active(es[j as int])
            &&& reach[j as int]
        }),
    decreases es.len() - k,
{
    if k < es.len() && !(enemy_active(es[k as int]) && reach[k as int]) {
        lemma_target_found(es, reach, k + 1);
    }
}


pub(crate) proof fn lemma_taker_in_range(es: Seq<EnemyState>, near: Seq<bool>, k: nat)
    requires
        pickup_taker_from(es, near, k) matches Some(j),
    ensures
        k <= pickup_taker_from(es, near, k)->0 < es.len(),
    decreases es.len() - k,
{
    if k < es.len() && !(es[k as int].alive && near[k as int]) {
        lemma_taker_in_range(es, near, k + 1);
    }
}

/// Applies bullets of `dmg` damage to the enemies at the indices `hits`, in
/// order, in place; see `shots_apply`. Returns the indices of the enemies
/// that started dying.
fn shoot_enemies(es: &mut Vec<EnemyState>, hits: &Vec<usize>, dmg: i32) -> (killed: Vec<usize>)
    requires
        dmg >= 0,
        forall|i: int| 0 <= i < old(es)@.len() ==> enemy_wf(#[trigger] old(es)@[i]),
    ensures
        (final(es)@, killed@) == shots_apply(old(es)@, hits@, dmg),
        forall|i: int| 0 <= i < final(es)@.len() ==> enemy_wf(#[trigger] final(es)@[i]),
{
    let ghost es0 = es@;
    let mut killed: Vec<usize> = Vec::new();
    let mut k: usize = 0;
    while k < hits.len()
        invariant
            0 <= k <= hits@.len(),
            (es@, killed@) == shots_apply(es0, hits@.take(k as int), dmg),
            dmg >= 0,
            forall|i: int| 0 <= i < es@.len() ==> enemy_wf(#[trigger] es@[i]),
        decreases hits@.len() - k,
    {
        assert(hits@.take(k + 1).drop_last() =~= hits@.take(k as int));
        let i = hits[k];
        if i < es.len() && es[i].is_active() {
            let mut e = es[i];
            e.hp = e.hp - dmg;
            if e.hp <= 0 {
                e.dying = true;
                e.death_anim = 0;
                killed.push(i);
            }
            es.set(i, e);
        }
        k = k + 1;
        assert forall|j: int| 0 <= j < es@.len() implies enemy_wf(#[trigger] es@[j]) by {
            if j != i {
                assert(enemy_wf(es@[j]));
            }
        }
    }
    assert(hits@.take(hits@.len() as int) =~= hits@);
    killed
}

impl GameState {
    /// One frame of the player's melee attack. `reach[j]` tells whether
    /// enemy `j` is within range in front of the player; the blow lands on
    /// the first active enemy in reach. Returns the index of the enemy that
    /// the blow starts dying, if any; such a kill counts one point.
    pub fn player_melee_tick(&mut self, reach: &Vec<bool>) -> (killed: Option<usize>)
        requires
            old(self).wf(),
            reach@.len() == old(self).enemies@.len(),
            ({
                let target = melee_target_from(old(self).enemies@, reach@, 0);
                &&& melee_tick(old(self).player.melee, target is Some).1
                &&& melee_blow(old(self).enemies@[target->0 as int]).dying
            }) ==> old(self).score < u32::MAX,
        ensures
            final(self)@ == crate::frame::player_melee_tick_model(old(self)@, reach@),
            final(self).wf(),
            ({
                let es = old(self).enemies@;
                let target = melee_target_from(es, reach@, 0);
                let (m, landed) = melee_tick(old(self).player.melee, target is Some);
                &&& *final(self) == (GameState {
                    player: PlayerState { melee: m, ..old(self).player },
                    enemies: final(self).enemies,
                    score: final(self).score,
                    ..*old(self)
                })
                &&& landed ==> ({
                    let j = target->0;
                    let e = melee_blow(es[j as int]);
                    &&& final(self).enemies@ == es.update(j as int, e)
                    &&& killed == (if e.dying { Some(j as usize) } else { None::<usize> })
                })
                &&& !landed ==> final(self).enemies@ == es && killed is None
                &&& final(self).score == old(self).score + (if killed is Some { 1int } else { 0int })
            }),
    {
        let ghost es = self.enemies@;
        let target = self.melee_target(reach);
        let landed = self.player.melee.tick(target.is_some());
        let mut killed: Option<usize> = None;
        if landed {
            let j = target.unwrap();
            let mut e = self.enemies[j];
            e.hp = e.hp - MELEE_DAMAGE;
            if e.hp <= 0 && !e.dying {
                e.hp = 0;
                e.dying = true;
                e.death_anim = 0;
                self.score = self.score + 1;
                killed = Some(j);
            }
            self.enemies.set(j, e);
        }
        assert forall|i: int| 0 <= i < self.enemies@.len() implies enemy_wf(#[trigger] self.enemies@[i]) by {
            assert(enemy_wf(es[i]));
        }
        killed
    }

    /// Bullets of `dmg` damage hit the enemies at the indices `hits`, in
    /// order; see `shots_apply`. Returns the indices of the enemies that
    /// started dying; each such kill counts one point.
    pub fn apply_shot_hits(&mut self, hits: &Vec<usize>, dmg: i32) -> (killed: Vec<usize>)
        requires
            old(self).wf(),
            dmg >= 0,
            old(self).score + shots_apply(old(self).enemies@, hits@, dmg).1.len() <= u32::MAX,
        ensures
            final(self)@ == crate::frame::shots_model(old(self)@, hits@, dmg),
            final(self).wf(),
            (final(self).enemies@, killed@) == shots_apply(old(self).enemies@, hits@, dmg),
            final(self).score == old(self).score + killed@.len(),
            *final(self) == (GameState { enemies: final(self).enemies, score: final(self).score, ..*old(self) }),
    {
        let mut es: Vec<EnemyState> = Vec::new();
        std::mem::swap(&mut es, &mut self.enemies);
        let killed = shoot_enemies(&mut es, hits, dmg);
        std::mem::swap(&mut es, &mut self.enemies);
        self.score = self.score + killed.len() as u32;
        killed
    }

    /// How many enemies `apply_shot_hits` with the same bullets would start
    /// dying, leaving the game as it is.
    pub fn shot_kills(&self, hits: &Vec<usize>, dmg: i32) -> (n: usize)
        requires
            self.wf(),
            dmg >= 0,
        ensures
            n == shots_apply(self.enemies@, hits@, dmg).1.len(),
    {
        let mut es: Vec<EnemyState> = Vec::new();
        let mut k: usize = 0;
        while k < self.enemies.len()
            invariant
                0 <= k <= self.enemies@.len(),
                es@ == self.enemies@.take(k as int),
            decreases self.enemies@.len() - k,
        {
            es.push(self.enemies[k]);
            k = k + 1;
            assert(es@ =~= self.enemies@.take(k as int));
        }
        assert(self.enemies@.take(k as int) =~= self.enemies@);
        let killed = shoot_enemies(&mut es, hits, dmg);
        killed.len()
    }

    /// The health pickup's spawn timer: while no pickup is out, the timer
    /// counts down; when it is spent, a pickup appears at a place chosen by
    /// the two draws returned.
    pub fn advance_pickup(&mut self) -> (spawn: Option<(u32, u32)>)
        requires
            old(self).wf(),
        ensures
            final(self)@ == crate::frame::advance_pickup_model(old(self)@),
            final(self).wf(),
            old(self).pickup_active ==> *final(self) == *old(self) && spawn is None,
            !old(self).pickup_active && old(self).pickup_timer > 0 ==> spawn is None
                && *final(self) == (GameState { pickup_timer: (old(self).pickup_timer - 1) as u32, ..*old(self) }),
            !old(self).pickup_active && old(self).pickup_timer == 0 ==> ({
                let r1 = crate::rng::xorshift_step(old(self).rng.state);
                let r2 = crate::rng::xorshift_step(r1);
                &&& spawn == Some((r1, r2))
                &&& *final(self) == (GameState { pickup_active: true, rng: crate::rng::Rng { state: r2 }, ..*old(self) })
            }),
    {
        if !self.pickup_active {
            if self.pickup_timer > 0 {
                self.pickup_timer = self.pickup_timer - 1;
                None
            } else {
                let r1 = self.rng.next_u32();
                let r2 = self.rng.next_u32();
                self.pickup_active = true;
                Some((r1, r2))
            }
        } else {
            None
        }
    }

    /// The player takes the health pickup: hit points rise by the pickup
    /// amount up to the maximum, the heal flash starts, the pickup is gone,
    /// and a draw is returned for the delay until the next one.
    pub fn player_takes_pickup(&mut self) -> (roll: u32)
        requires
            old(self).wf(),
            old(self).pickup_active,
        ensures
            final(self)@ == crate::frame::player_takes_pickup_model(old(self)@),
            final(self).wf(),
            roll == crate::rng::xorshift_step(old(self).rng.state),
            *final(self) == (GameState {
                player: PlayerState {
                    hp: healed(old(self).player.hp, old(self).player.max_hp),
                    heal_flash: HEAL_FLASH_FRAMES,
                    ..old(self).player
                },
                pickup_active: false,
                rng: crate::rng::Rng { state: roll },
                ..*old(self)
            }),
            final(self).player.hp <= final(self).player.max_hp,
    {
        let hp = self.player.hp + HEALTH_PICKUP_AMOUNT;
        self.player.hp = if hp <= self.player.max_hp { hp } else { self.player.max_hp };
        self.player.heal_flash = HEAL_FLASH_FRAMES;
        self.pickup_active = false;
        self.rng.next_u32()
    }

    /// The first alive enemy near the health pickup (`near[i]`) takes it:
    /// its hit points rise up to its maximum and it flashes. Returns that
    /// enemy's index and a draw for the delay until the next pickup.
    pub fn enemies_take_pickup(&mut self, near: &Vec<bool>) -> (taken: Option<(usize, u32)>)
        requires
            old(self).wf(),
            old(self).pickup_active,
            near@.len() == old(self).enemies@.len(),
        ensures
            final(self)@ == crate::frame::enemies_take_pickup_model(old(self)@, near@),
            final(self).wf(),
            ({
                let es = old(self).enemies@;
                match pickup_taker_from(es, near@, 0) {
                    None => taken is None && *final(self) == *old(self),
                    Some(j) => {
                        let e = es[j as int];
                        let roll = crate::rng::xorshift_step(old(self).rng.state);
                        &&& taken == Some((j as usize, roll))
                        &&& final(self).enemies@ == es.update(
                            j as int,
                            EnemyState { hp: healed(e.hp, e.max_hp), heal_flash: HEAL_FLASH_FRAMES, ..e },
                        )
                        &&& *final(self) == (GameState {
                            enemies: final(self).enemies,
                            pickup_active: false,
                            rng: crate::rng::Rng { state: roll },
                            ..*old(self)
                        })
                    },
                }
            }),
    {
        let ghost es = self.enemies@;
        let n = self.enemies.len();
        let mut k: usize = 0;
        while k < n
            invariant
                0 <= k <= n,
                n == es.len(),
                es == self.enemies@,
                near@.len() == n,
                pickup_taker_from(es, near@, 0) == pickup_taker_from(es, near@, k as nat),
                *self == *old(self),
                old(self).wf(),
            decreases n - k,
        {
            if self.enemies[k].alive && near[k] {
                let mut e = self.enemies[k];
                let hp = e.hp + HEALTH_PICKUP_AMOUNT;
                e.hp = if hp <= e.max_hp { hp } else { e.max_hp };
                e.heal_flash = HEAL_FLASH_FRAMES;
                self.enemies.set(k, e);
                self.pickup_active = false;
                let roll = self.rng.next_u32();
                assert forall|i: int| 0 <= i < self.enemies@.len() implies enemy_wf(#[trigger] self.enemies@[i]) by {
                    assert(enemy_wf(es[i]));
                }
                return Some((k, roll));
            }
            k = k + 1;
        }
        assert(pickup_taker_from(es, near@, n as nat) is None);
        None
    }

    /// Sets the delay before the next health pickup appears.
    pub fn schedule_pickup(&mut self, delay: u32)
        requires
            old(self).wf(),
            !old(self).pickup_active,
        ensures
            final(self)@ == crate::frame::schedule_pickup_model(old(self)@, delay),
            final(self).wf(),
            *final(self) == (GameState { pickup_timer: delay, ..*old(self) }),
    {
        self.pickup_timer = delay;
    }

    /// The heal flashes of the player and of every enemy fade by one frame.
    pub fn tick_heal_flashes(&mut self)
        requires
            old(self).wf(),
        ensures
            final(self)@ == crate::frame::heal_flashes_model(old(self)@),
            final(self).wf(),
            *final(self) == (GameState {
                player: PlayerState {
                    heal_flash: if old(self).player.heal_flash > 0 { (old(self).player.heal_flash - 1) as u32 } else { 0 },
                    ..old(self).player
                },
                enemies: final(self).enemies,
                ..*old(self)
            }),
            final(self).enemies@.len() == old(self).enemies@.len(),
            forall|i: int| 0 <= i < old(self).enemies@.len() ==> #[trigger] final(self).enemies@[i] == (EnemyState {
                heal_flash: if old(self).enemies@[i].heal_flash > 0 { (old(self).enemies@[i].heal_flash - 1) as u32 } else { 0 },
                ..old(self).enemies@[i]
            }),
    {
        if self.player.heal_flash > 0 {
            self.player.heal_flash = self.player.heal_flash - 1;
        }
        let mut es: Vec<EnemyState> = Vec::new();
        std::mem::swap(&mut es, &mut self.enemies);
        let n = es.len();
        let mut k: usize = 0;
        while k < n
            invariant
                0 <= k <= n,
                es@.len() == n,
                n == old(self).enemies@.len(),
                forall|i: int| 0 <= i < k ==> #[trigger] es@[i] == (EnemyState {
                    heal_flash: if old(self).enemies@[i].heal_flash > 0 { (old(self).enemies@[i].heal_flash - 1) as u32 } else { 0 },
                    ..old(self).enemies@[i]
                }),
                forall|i: int| k <= i < n ==> #[trigger] es@[i] == old(self).enemies@[i],
            decreases n - k,
        {
            let mut e = es[k];
            if e.heal_flash > 0 {
                e.heal_flash = e.heal_flash - 1;
            }
            es.set(k, e);
            k = k + 1;
        }
        std::mem::swap(&mut es, &mut self.enemies);
        assert(self.enemies@ =~= crate::frame::heal_flashes_model(old(self)@).enemies);
        assert forall|i: int| 0 <= i < self.enemies@.len() implies enemy_wf(#[trigger] self.enemies@[i]) by {
            assert(enemy_wf(old(self).enemies@[i]));
        }
    }
}


/// Bullets never touch an enemy that is dead or already dying, each enemy
/// is counted as killed at most once however many bullets hit it, and only
/// enemies that were active can be killed.
pub proof fn lemma_shots_kill_each_once(es: Seq<EnemyState>, hits: Seq<usize>, dmg: i32)
    ensures
        shots_apply(es, hits, dmg).0.len() == es.len(),
        forall|j: int| 0 <= j < es.len() && !enemy_active(es[j]) ==> #[trigger] shots_apply(es, hits, dmg).0[j] == es[j],
        shots_apply(es, hits, dmg).1.no_duplicates(),
        forall|k: int| 0 <= k < shots_apply(es, hits, dmg).1.len() ==> {
            let j = #[trigger] shots_apply(es, hits, dmg).1[k];
            &&& j < es.len()
            &&& enemy_active(es[j as int])
            &&& shots_apply(es, hits, dmg).0[j as int].dying
        },
    decreases hits.len(),
{
    if hits.len() > 0 {
        lemma_shots_kill_each_once(es, hits.drop_last(), dmg);
        let (es1, killed) = shots_apply(es, hits.drop_last(), dmg);
        let i = hits.last();
        if i < es1.len() && enemy_active(es1[i as int]) {
            let e = shot_enemy(es1[i as int], dmg);
            let es2 = es1.update(i as int, e);
            if e.dying {
                let k2 = killed.push(i);
                assert forall|a: int, b: int| 0 <= a < b < k2.len() implies k2[a] != k2[b] by {
                    if b == k2.len() - 1 {
                        assert(es1[killed[a] as int].dying);
                    }
                }
                assert forall|k: int| 0 <= k < k2.len() implies {
                    let j = #[trigger] k2[k];
                    &&& j < es.len()
                    &&& enemy_active(es[j as int])
                    &&& es2[j as int].dying
                } by {
                    if k < killed.len() {
                        assert(k2[k] == killed[k]);
                    } else {
                        assert(k2[k] == i);
                    }
                }
            }
        }
    }
}


/// What a weapon does in a frame: fire the given shot of the spray pattern,
/// hold (trigger down but no shot possible), or rest (trigger released),
/// in which case the recoil is cleared when the pattern starts over.
#[derive(Clone, Copy, Debug, PartialEq, Eq, Structural)]
pub enum TriggerOutcome {
    Fire { shot: u32 },
    Hold,
    Rest { clear_recoil: bool },
}

/// The player's weapon for one frame: with the trigger down, ammunition
/// ready and no swing running it fires at the aim point if there is one;
/// with the trigger released it rests.
pub open spec fn player_trigger_spec(p: PlayerState, trigger_down: bool, can_fire: bool, has_aim: bool) -> (PlayerState, TriggerOutcome) {
    if trigger_down && can_fire && p.melee.timer == 0 {
        if has_aim {
            (
                PlayerState { spray: SprayState { index: (p.spray.index + 1) as u32, reset_timer: RECOIL_RESET_FRAMES }, ..p },
                TriggerOutcome::Fire { shot: p.spray.index },
            )
        } else {
            (p, TriggerOutcome::Hold)
        }
    } else if !trigger_down {
        let (sp, cleared) = spray_rest(p.spray);
        (PlayerState { spray: sp, ..p }, TriggerOutcome::Rest { clear_recoil: cleared })
    } else {
        (p, TriggerOutcome::Hold)
    }
}

/// Enemy `e`'s weapon for one frame, given whether it may shoot (see
/// `enemy_may_shoot`), sees a target and has ammunition ready: it fires
/// when all three hold, holds when it may shoot and sees a target but
/// cannot fire, and rests otherwise.
pub open spec fn enemy_trigger_spec(e: EnemyState, may_shoot: bool, sees_target: bool, can_fire: bool) -> (EnemyState, TriggerOutcome) {
    if may_shoot && sees_target {
        if can_fire {
            (
                EnemyState { spray: SprayState { index: (e.spray.index + 1) as u32, reset_timer: RECOIL_RESET_FRAMES }, ..e },
                TriggerOutcome::Fire { shot: e.spray.index },
            )
        } else {
            (e, TriggerOutcome::Hold)
        }
    } else {
        let (sp, cleared) = spray_rest(e.spray);
        (EnemyState { spray: sp, ..e }, TriggerOutcome::Rest { clear_recoil: cleared })
    }
}

impl GameState {
    /// The player's weapon for one frame; see `player_trigger_spec`.
    pub fn player_trigger(&mut self, trigger_down: bool, can_fire: bool, has_aim: bool) -> (t: TriggerOutcome)
        requires
            old(self).wf(),
            trigger_down && can_fire && old(self).player.melee.timer == 0 && has_aim ==> old(self).player.spray.index < u32::MAX,
        ensures
            final(self)@ == crate::frame::player_trigger_model(old(self)@, trigger_down, can_fire, has_aim),
            final(self).wf(),
            (final(self).player, t) == player_trigger_spec(old(self).player, trigger_down, can_fire, has_aim),
            *final(self) == (GameState { player: final(self).player, ..*old(self) }),
    {
        if trigger_down && can_fire && !self.player.melee.swinging() {
            if has_aim {
                let shot = self.player.spray.shoot();
                TriggerOutcome::Fire { shot }
            } else {
                TriggerOutcome::Hold
            }
        } else if !trigger_down {
            let clear_recoil = self.player.spray.rest();
            TriggerOutcome::Rest { clear_recoil }
        } else {
            TriggerOutcome::Hold
        }
    }

    /// Enemy `i`'s weapon for one frame; see `enemy_trigger_spec`, with
    /// `may_shoot` as `enemy_may_shoot` gives it.
    pub fn enemy_trigger(&mut self, i: usize, sees_target: bool, can_fire: bool) -> (t: TriggerOutcome)
        requires
            old(self).wf(),
            i < old(self).enemies@.len(),
            ({
                let e = old(self).enemies@[i as int];
                e.action.shooting && !old(self).dev_mode && e.melee.timer == 0 && sees_target && can_fire
            }) ==> old(self).enemies@[i as int].spray.index < u32::MAX,
        ensures
            final(self)@ == crate::frame::enemy_trigger_model(old(self)@, i as int, sees_target, can_fire),
            final(self).wf(),
            ({
                let e = old(self).enemies@[i as int];
                let may_shoot = e.action.shooting && !old(self).dev_mode && e.melee.timer == 0;
                let (e2, out) = enemy_trigger_spec(e, may_shoot, sees_target, can_fire);
                &&& t == out
                &&& final(self).enemies@ == old(self).enemies@.update(i as int, e2)
            }),
            old(self).dev_mode ==> !(t is Fire),
            *final(self) == (GameState { enemies: final(self).enemies, ..*old(self) }),
    {
        let may_shoot = self.enemy_may_shoot(i);
        let mut e = self.enemies[i];
        let t = if may_shoot && sees_target {
            if can_fire {
                let shot = e.spray.shoot();
                TriggerOutcome::Fire { shot }
            } else {
                TriggerOutcome::Hold
            }
        } else {
            let clear_recoil = e.spray.rest();
            TriggerOutcome::Rest { clear_recoil }
        };
        self.enemies.set(i, e);
        assert forall|j: int| 0 <= j < self.enemies@.len() implies enemy_wf(#[trigger] self.enemies@[j]) by {
            assert(enemy_wf(old(self).enemies@[j]));
        }
        t
    }
}


impl GameState {
    /// The first active enemy in the player's reach (see `melee_target_from`).
    fn melee_target(&self, reach: &Vec<bool>) -> (t: Option<usize>)
        requires
            reach@.len() == self.enemies@.len(),
        ensures
            t is None <==> melee_target_from(self.enemies@, reach@, 0) is None,
            t matches Some(j) ==> melee_target_from(self.enemies@, reach@, 0) == Some(j as nat)
                && j < self.enemies@.len() && enemy_active(self.enemies@[j as int]),
    {
        let ghost es = self.enemies@;
        let n = self.enemies.len();
        let mut target: Option<usize> = None;
        let mut k: usize = 0;
        while k < n
            invariant
                0 <= k <= n,
                n == es.len(),
                es == self.enemies@,
                reach@.len() == n,
                target is None ==> melee_target_from(es, reach@, 0) == melee_target_from(es, reach@, k as nat),
                target matches Some(j) ==> melee_target_from(es, reach@, 0) == Some(j as nat),
            decreases n - k,
        {
            if target.is_none() {
                if self.enemies[k].is_active() && reach[k] {
                    target = Some(k);
                } else {
                    proof {
                        lemma_target_shift(es, reach@, k as nat);
                    }
                }
            }
            k = k + 1;
        }
        proof {
            if target is None {
                assert(melee_target_from(es, reach@, n as nat) is None);
            } else {
                lemma_target_found(es, reach@, 0);
            }
        }
        target
    }

    /// Whether the player's melee blow lands this frame and starts an enemy
    /// dying, given who is in reach (see `player_melee_tick`); such a blow
    /// counts one point.
    pub fn player_melee_kills(&self, reach: &Vec<bool>) -> (b: bool)
        requires
            reach@.len() == self.enemies@.len(),
        ensures
            b == ({
                let target = melee_target_from(self.enemies@, reach@, 0);
                &&& melee_tick(self.player.melee, target is Some).1
                &&& melee_blow(self.enemies@[target->0 as int]).dying
            }),
    {
        match self.melee_target(reach) {
            None => false,
            Some(j) => self.player.melee.would_land(true) && self.enemies[j].hp <= MELEE_DAMAGE,
        }
    }
}

/// A melee blow on an enemy in play lowers its hit points by
/// `MELEE_DAMAGE`. The enemy starts dying, at zero hit points and at the
/// first frame of its death animation, exactly when that leaves it at most
/// zero; otherwise it stays in play with the lowered hit points. Nothing else
/// about it changes.
pub proof fn lemma_melee_blow_damage(e: EnemyState)
    requires
        enemy_active(e),
    ensures
        melee_blow(e).dying <==> e.hp - MELEE_DAMAGE <= 0,
        e.hp - MELEE_DAMAGE <= 0 ==> melee_blow(e) == (EnemyState { hp: 0, dying: true, death_anim: 0, ..e }),
        e.hp - MELEE_DAMAGE > 0 ==> melee_blow(e).hp == e.hp - MELEE_DAMAGE
            && melee_blow(e) == (EnemyState { hp: melee_blow(e).hp, ..e }),
{
}

/// With the trigger down, ammunition ready, an aim point and no swing
/// running, the player's weapon fires the current shot of the spray pattern
/// and moves on to the next one, whatever the melee cooldown; the rest of the
/// player is unchanged.
pub proof fn lemma_trigger_fires_between_swings(p: PlayerState)
    requires
        p.melee.timer == 0,
        p.spray.index < u32::MAX,
    ensures
        player_trigger_spec(p, true, true, true).1 == (TriggerOutcome::Fire { shot: p.spray.index }),
        player_trigger_spec(p, true, true, true).0.spray.index == p.spray.index + 1,
        player_trigger_spec(p, true, true, true).0 == (PlayerState {
            spray: player_trigger_spec(p, true, true, true).0.spray,
            ..p
        }),
{
}

/// A health pickup raises hit points to the smaller of the hit points plus
/// `HEALTH_PICKUP_AMOUNT` and the maximum.
pub proof fn lemma_healed_is_capped_sum(hp: i32, max_hp: i32)
    ensures
        healed(hp, max_hp) <= hp + HEALTH_PICKUP_AMOUNT,
        healed(hp, max_hp) <= max_hp,
        healed(hp, max_hp) == hp + HEALTH_PICKUP_AMOUNT || healed(hp, max_hp) == max_hp,
{
}

/// A bullet of `dmg` damage on an enemy lowers its hit points by `dmg`, and
/// the enemy starts dying, at the first frame of its death animation,
/// exactly when that leaves it at most zero; nothing else about it changes.
pub proof fn lemma_shot_damage(e: EnemyState, dmg: i32)
    requires
        enemy_active(e),
        dmg >= 0,
        i32::MIN <= e.hp - dmg,
    ensures
        shot_enemy(e, dmg).hp == e.hp - dmg,
        shot_enemy(e, dmg).dying <==> e.hp - dmg <= 0,
        e.hp - dmg <= 0 ==> shot_enemy(e, dmg).death_anim == 0,
        shot_enemy(e, dmg) == (EnemyState {
            hp: shot_enemy(e, dmg).hp,
            dying: shot_enemy(e, dmg).dying,
            death_anim: shot_enemy(e, dmg).death_anim,
            ..e
        }),
{
}

} // verus!
