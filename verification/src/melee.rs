use vstd::prelude::*;

verus! {

/// Length of a melee swing, in frames.
pub const MELEE_FRAMES: u32 = 18;
/// Frames after a swing before another can start.
pub const MELEE_COOLDOWN: u32 = 10;
/// Swing timer value at which the blow lands: the middle of the swing.
pub const MELEE_STRIKE_AT: u32 = MELEE_FRAMES / 2;

/// Timers of a melee attack: the frames left in the current swing, the
/// cooldown before the next one, and whether the current swing has hit.
#[derive(Clone, Copy, Debug, PartialEq, Eq, Structural)]
pub struct MeleeState {
    pub timer: u32,
    pub cooldown: u32,
    pub hit: bool,
}

pub open spec fn melee_of(timer: u32, cooldown: u32, hit: bool) -> MeleeState {
    MeleeState { timer, cooldown, hit }
}

/// One frame of a melee attack, given whether a target is in reach at the
/// moment the blow would land: the new timers and whether the blow landed.
pub open spec fn melee_tick(m: MeleeState, in_reach: bool) -> (MeleeState, bool) {
    if m.timer > 0 {
        let t = (m.timer - 1) as u32;
        let landed = t == MELEE_STRIKE_AT && !m.hit && in_reach;
        let cd = if t == 0 { MELEE_COOLDOWN } else { m.cooldown };
        (melee_of(t, if cd > 0 { (cd - 1) as u32 } else { 0 }, m.hit || landed), landed)
    } else {
        (melee_of(0, if m.cooldown > 0 { (m.cooldown - 1) as u32 } else { 0 }, m.hit), false)
    }
}

impl MeleeState {
    pub fn new() -> (m: MeleeState)
        ensures
            m == melee_of(0, 0, false),
    {
        MeleeState { timer: 0, cooldown: 0, hit: false }
    }

    /// A swing is in progress.
    pub fn swinging(&self) -> (b: bool)
        ensures
            b == (self.timer > 0),
    {
        self.timer > 0
    }

    /// Whether the next frame's blow lands, given whether a target is in
    /// reach then.
    pub fn would_land(&self, in_reach: bool) -> (b: bool)
        ensures
            b == melee_tick(*self, in_reach).1,
    {
        self.timer > 0 && self.timer - 1 == MELEE_STRIKE_AT && !self.hit && in_reach
    }

    /// Starts a swing when `wanted` and neither a swing nor the cooldown is
    /// running; returns whether it started.
    pub fn try_start(&mut self, wanted: bool) -> (started: bool)
        ensures
            started == (wanted && old(self).timer == 0 && old(self).cooldown == 0),
            started ==> *final(self) == melee_of(MELEE_FRAMES, 0, false),
            !started ==> *final(self) == *old(self),
    {
        if wanted && self.timer == 0 && self.cooldown == 0 {
            self.timer = MELEE_FRAMES;
            self.hit = false;
            true
        } else {
            false
        }
    }

    /// Advances the swing and the cooldown by one frame. The blow lands when
    /// the swing reaches its middle, it has not landed yet and a target is
    /// in reach; the cooldown starts when the swing ends.
    pub fn tick(&mut self, in_reach: bool) -> (landed: bool)
        ensures
            (*final(self), landed) == melee_tick(*old(self), in_reach),
            landed ==> final(self).timer == MELEE_STRIKE_AT && final(self).hit && !old(self).hit,
            old(self).hit ==> !landed,
    {
        let mut landed = false;
        if self.timer > 0 {
            self.timer = self.timer - 1;
            if self.timer == MELEE_STRIKE_AT && !self.hit && in_reach {
                self.hit = true;
                landed = true;
            }
            if self.timer == 0 {
                self.cooldown = MELEE_COOLDOWN;
            }
        }
        if self.cooldown > 0 {
            self.cooldown = self.cooldown - 1;
        }
        landed
    }
}

/// Runs `reach.len()` frames of a melee attack, the i-th frame with target
/// reach `reach[i]`; gives the final timers and the number of blows landed.
pub open spec fn melee_run(m: MeleeState, reach: Seq<bool>) -> (MeleeState, nat)
    decreases reach.len(),
{
    if reach.len() == 0 {
        (m, 0)
    } else {
        let (m1, landed) = melee_tick(m, reach[0]);
        let (m2, n) = melee_run(m1, reach.drop_first());
        (m2, if landed { n + 1 } else { n })
    }
}

/// A swing deals its blow at most once, however long the target stays in
/// reach; once it has landed, no further blow lands until a new swing.
pub proof fn lemma_swing_lands_at_most_once(m: MeleeState, reach: Seq<bool>)
    ensures
        melee_run(m, reach).1 <= (if m.hit { 0nat } else { 1nat }),
        m.hit ==> melee_run(m, reach).0.hit,
    decreases reach.len(),
{
    if reach.len() > 0 {
        let (m1, landed) = melee_tick(m, reach[0]);
        lemma_swing_lands_at_most_once(m1, reach.drop_first());
    }
}

/// A swing started from rest lasts MELEE_FRAMES frames, after which the
/// cooldown holds one frame fewer than MELEE_COOLDOWN.
pub proof fn lemma_swing_duration(m: MeleeState, reach: Seq<bool>)
    requires
        m.timer <= MELEE_FRAMES,
        m.cooldown == 0,
        reach.len() == m.timer,
        m.timer > 0,
    ensures
        melee_run(m, reach).0.timer == 0,
        melee_run(m, reach).0.cooldown == MELEE_COOLDOWN - 1,
    decreases reach.len(),
{
    if m.timer > 1 {
        let (m1, landed) = melee_tick(m, reach[0]);
        assert(m1.cooldown == 0);
        lemma_swing_duration(m1, reach.drop_first());
    } else {
        let (m1, landed) = melee_tick(m, reach[0]);
        assert(reach.drop_first().len() == 0);
        assert(melee_run(m1, reach.drop_first()) == (m1, 0nat));
    }
}

} // verus!
