use vstd::prelude::*;

verus! {

/// Frames without firing before the spray pattern starts over.
pub const RECOIL_RESET_FRAMES: u32 = 15;

/// Position in the recoil spray pattern: the index of the next shot and the
/// frames left before an idle weapon returns to the pattern's first shot.
#[derive(Clone, Copy, Debug, PartialEq, Eq, Structural)]
pub struct SprayState {
    pub index: u32,
    pub reset_timer: u32,
}

pub open spec fn spray_of(index: u32, reset_timer: u32) -> SprayState {
    SprayState { index, reset_timer }
}

/// One frame in which the weapon is not fired: the new state and whether
/// the accumulated recoil is cleared because the pattern starts over.
pub open spec fn spray_rest(s: SprayState) -> (SprayState, bool) {
    if s.index > 0 {
        if s.reset_timer > 0 {
            (spray_of(s.index, (s.reset_timer - 1) as u32), false)
        } else {
            (spray_of(0, s.reset_timer), true)
        }
    } else {
        (s, false)
    }
}

impl SprayState {
    pub fn new() -> (s: SprayState)
        ensures
            s == spray_of(0, 0),
    {
        SprayState { index: 0, reset_timer: 0 }
    }

    /// A shot is fired: returns the index of this shot in the pattern and
    /// moves to the next one, restarting the idle timer.
    pub fn shoot(&mut self) -> (shot: u32)
        requires
            old(self).index < u32::MAX,
        ensures
            shot == old(self).index,
            *final(self) == spray_of((old(self).index + 1) as u32, RECOIL_RESET_FRAMES),
    {
        let shot = self.index;
        self.index = self.index + 1;
        self.reset_timer = RECOIL_RESET_FRAMES;
        shot
    }

    /// A frame without firing; returns whether the recoil is to be cleared.
    pub fn rest(&mut self) -> (cleared: bool)
        ensures
            (*final(self), cleared) == spray_rest(*old(self)),
    {
        if self.index > 0 {
            if self.reset_timer > 0 {
                self.reset_timer = self.reset_timer - 1;
                false
            } else {
                self.index = 0;
                true
            }
        } else {
            false
        }
    }

    /// Reloading starts the pattern over.
    pub fn restart(&mut self)
        ensures
            *final(self) == spray_of(0, old(self).reset_timer),
    {
        self.index = 0;
    }
}

/// The state after `n` frames without firing.
pub open spec fn spray_rest_n(s: SprayState, n: nat) -> SprayState
    decreases n,
{
    if n == 0 {
        s
    } else {
        spray_rest_n(spray_rest(s).0, (n - 1) as nat)
    }
}

/// After a shot the pattern keeps its place through RECOIL_RESET_FRAMES idle
/// frames and starts over at the next one.
pub proof fn lemma_pattern_restarts_after_idle(s: SprayState, n: nat)
    requires
        s.index > 0,
        n <= s.reset_timer + 1,
    ensures
        n <= s.reset_timer ==> spray_rest_n(s, n) == spray_of(s.index, (s.reset_timer - n) as u32),
        n == s.reset_timer + 1 ==> spray_rest_n(s, n).index == 0,
    decreases n,
{
    if n > 0 {
        if s.reset_timer > 0 {
            lemma_pattern_restarts_after_idle(spray_rest(s).0, (n - 1) as nat);
        } else {
            assert(spray_rest_n(spray_rest(s).0, 0) == spray_rest(s).0);
        }
    }
}

/// Firing a shot and then idling RECOIL_RESET_FRAMES + 1 frames returns the
/// weapon to the pattern's first shot, whatever shot it was at.
pub proof fn lemma_shot_then_idle(index: u32)
    requires
        index < u32::MAX,
    ensures
        spray_rest_n(spray_of((index + 1) as u32, RECOIL_RESET_FRAMES), (RECOIL_RESET_FRAMES + 1) as nat).index == 0,
        spray_rest_n(spray_of((index + 1) as u32, RECOIL_RESET_FRAMES), RECOIL_RESET_FRAMES as nat).index == index + 1,
{
    lemma_pattern_restarts_after_idle(spray_of((index + 1) as u32, RECOIL_RESET_FRAMES), (RECOIL_RESET_FRAMES + 1) as nat);
    lemma_pattern_restarts_after_idle(spray_of((index + 1) as u32, RECOIL_RESET_FRAMES), RECOIL_RESET_FRAMES as nat);
}

} // verus!
