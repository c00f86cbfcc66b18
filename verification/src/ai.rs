use vstd::prelude::*;
use crate::rng::{Rng, xorshift_step};

verus! {

/// Shortest time an enemy keeps one action, in frames.
pub const AI_MIN_FRAMES: u32 = 12;
/// Longest time an enemy keeps one action, in frames.
pub const AI_MAX_FRAMES: u32 = 120;
/// Number of action combinations an enemy picks from (by the roll's
/// remainder modulo this number).
pub const ACTION_KINDS: u32 = 12;

/// What an enemy does until its action timer runs out.
#[derive(Clone, Copy, Debug, PartialEq, Eq, Structural)]
pub struct EnemyAction {
    pub shooting: bool,
    pub crouching: bool,
    pub walking: bool,
    pub sprinting: bool,
    pub turning: bool,
    pub melee: bool,
}

pub open spec fn action_of(
    shooting: bool,
    crouching: bool,
    walking: bool,
    sprinting: bool,
    turning: bool,
    melee: bool,
) -> EnemyAction {
    EnemyAction { shooting, crouching, walking, sprinting, turning, melee }
}

/// The action combination that a roll selects, by its residue modulo twelve:
/// standing, crouching, sprinting, walking, turning, turning while walking,
/// turning while sprinting, firing while standing, crouching, walking or
/// sprinting, and melee.
pub open spec fn action_table(k: int) -> EnemyAction {
    if k == 0 {
        action_of(false, false, false, false, false, false)
    } else if k == 1 {
        action_of(false, true, false, false, false, false)
    } else if k == 2 {
        action_of(false, false, false, true, false, false)
    } else if k == 3 {
        action_of(false, false, true, false, false, false)
    } else if k == 4 {
        action_of(false, false, false, false, true, false)
    } else if k == 5 {
        action_of(false, false, true, false, true, false)
    } else if k == 6 {
        action_of(false, false, false, true, true, false)
    } else if k == 7 {
        action_of(true, false, false, false, false, false)
    } else if k == 8 {
        action_of(true, true, false, false, false, false)
    } else if k == 9 {
        action_of(true, false, true, false, false, false)
    } else if k == 10 {
        action_of(true, false, false, true, false, false)
    } else {
        action_of(false, false, false, false, false, true)
    }
}

impl EnemyAction {
    /// Standing still: every flag cleared.
    pub fn idle() -> (a: EnemyAction)
        ensures
            a == action_table(0),
    {
        EnemyAction {
            shooting: false,
            crouching: false,
            walking: false,
            sprinting: false,
            turning: false,
            melee: false,
        }
    }

    /// Whether the rolled turn rate is kept: an enemy that shoots or swings
    /// faces the player instead of turning on its own.
    pub fn keeps_turn_rate(&self) -> (b: bool)
        ensures
            b == !(self.shooting || self.melee),
    {
        !(self.shooting || self.melee)
    }

    /// Whether the enemy turns by its own turn rate this frame.
    pub fn turns(&self) -> (b: bool)
        ensures
            b == (self.turning && !self.shooting),
    {
        self.turning && !self.shooting
    }

    /// Whether the enemy presses forward (walking or sprinting).
    pub fn moves_forward(&self) -> (b: bool)
        ensures
            b == (self.walking || self.sprinting),
    {
        self.walking || self.sprinting
    }
}

/// The action selected by a raw roll of the generator.
pub fn action_for_roll(roll: u32) -> (a: EnemyAction)
    ensures
        a == action_table((roll % ACTION_KINDS) as int),
{
    let k = roll % ACTION_KINDS;
    if k == 0 {
        EnemyAction::idle()
    } else if k == 1 {
        EnemyAction { shooting: false, crouching: true, walking: false, sprinting: false, turning: false, melee: false }
    } else if k == 2 {
        EnemyAction { shooting: false, crouching: false, walking: false, sprinting: true, turning: false, melee: false }
    } else if k == 3 {
        EnemyAction { shooting: false, crouching: false, walking: true, sprinting: false, turning: false, melee: false }
    } else if k == 4 {
        EnemyAction { shooting: false, crouching: false, walking: false, sprinting: false, turning: true, melee: false }
    } else if k == 5 {
        EnemyAction { shooting: false, crouching: false, walking: true, sprinting: false, turning: true, melee: false }
    } else if k == 6 {
        EnemyAction { shooting: false, crouching: false, walking: false, sprinting: true, turning: true, melee: false }
    } else if k == 7 {
        EnemyAction { shooting: true, crouching: false, walking: false, sprinting: false, turning: false, melee: false }
    } else if k == 8 {
        EnemyAction { shooting: true, crouching: true, walking: false, sprinting: false, turning: false, melee: false }
    } else if k == 9 {
        EnemyAction { shooting: true, crouching: false, walking: true, sprinting: false, turning: false, melee: false }
    } else if k == 10 {
        EnemyAction { shooting: true, crouching: false, walking: false, sprinting: true, turning: false, melee: false }
    } else {
        EnemyAction { shooting: false, crouching: false, walking: false, sprinting: false, turning: false, melee: true }
    }
}

/// The three draws that decide an enemy's next action: a roll for its
/// duration, a roll for its turn rate, and the action itself.
#[derive(Clone, Copy, Debug, PartialEq, Eq, Structural)]
pub struct AiRoll {
    pub duration_roll: u32,
    pub turn_roll: u32,
    pub action: EnemyAction,
}

/// The draws made from generator state `s`: three successive steps.
pub open spec fn ai_roll_from(s: u32) -> AiRoll {
    let s1 = xorshift_step(s);
    let s2 = xorshift_step(s1);
    let s3 = xorshift_step(s2);
    AiRoll { duration_roll: s1, turn_roll: s2, action: action_table((s3 % ACTION_KINDS) as int) }
}

/// Draws the duration roll, the turn roll and the action, in that order.
pub fn random_action(rng: &mut Rng) -> (r: AiRoll)
    ensures
        r == ai_roll_from(old(rng).state),
        final(rng).state == xorshift_step(xorshift_step(xorshift_step(old(rng).state))),
{
    let duration_roll = rng.next_u32();
    let turn_roll = rng.next_u32();
    let pick = rng.next_u32();
    AiRoll { duration_roll, turn_roll, action: action_for_roll(pick) }
}

/// The twelve combinations an enemy chooses from are pairwise different, so
/// each remainder of the roll modulo twelve selects its own combination.
pub proof fn lemma_actions_distinct(i: int, j: int)
    requires
        0 <= i < ACTION_KINDS,
        0 <= j < ACTION_KINDS,
        i != j,
    ensures
        action_table(i) != action_table(j),
{
}

/// No combination both shoots and swings, and none both walks and sprints.
pub proof fn lemma_actions_consistent(k: int)
    ensures
        !(action_table(k).shooting && action_table(k).melee),
        !(action_table(k).walking && action_table(k).sprinting),
        action_table(k).melee ==> action_table(k) == action_of(false, false, false, false, false, true),
{
}

} // verus!
