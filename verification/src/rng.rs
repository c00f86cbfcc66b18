use vstd::prelude::*;

verus! {

/// One step of the 32-bit xorshift generator with shifts 13, 17 and 5.
pub open spec fn xorshift_step(x: u32) -> u32 {
    let a = x ^ (x << 13u32);
    let b = a ^ (a >> 17u32);
    b ^ (b << 5u32)
}

/// The state reached after `n` steps of the generator.
pub open spec fn xorshift_iter(x: u32, n: nat) -> u32
    decreases n,
{
    if n == 0 {
        x
    } else {
        xorshift_step(xorshift_iter(x, (n - 1) as nat))
    }
}

/// Deterministic xorshift32 generator; every draw returns the new state.
#[derive(Clone, Copy, Debug, PartialEq, Eq, Structural)]
pub struct Rng {
    pub state: u32,
}

impl Rng {
    pub fn new(seed: u32) -> (r: Rng)
        ensures
            r.state == seed,
    {
        Rng { state: seed }
    }

    /// Advances the generator one step and returns the new state.
    pub fn next_u32(&mut self) -> (r: u32)
        ensures
            final(self).state == xorshift_step(old(self).state),
            r == final(self).state,
    {
        let x = self.state;
        let a = x ^ (x << 13u32);
        let b = a ^ (a >> 17u32);
        let c = b ^ (b << 5u32);
        self.state = c;
        c
    }
}

/// A generator seeded with a nonzero value never reaches the zero state,
/// where it would stay forever: every step maps a nonzero state to a
/// nonzero one.
pub proof fn lemma_step_keeps_nonzero(x: u32)
    requires
        x != 0,
    ensures
        xorshift_step(x) != 0,
{
    assert(x != 0 ==> (x ^ (x << 13u32)) != 0) by (bit_vector);
    let a = x ^ (x << 13u32);
    assert(a != 0 ==> (a ^ (a >> 17u32)) != 0) by (bit_vector);
    let b = a ^ (a >> 17u32);
    assert(b != 0 ==> (b ^ (b << 5u32)) != 0) by (bit_vector);
}

/// Any number of steps from a nonzero state leads to a nonzero state.
pub proof fn lemma_iter_keeps_nonzero(x: u32, n: nat)
    requires
        x != 0,
    ensures
        xorshift_iter(x, n) != 0,
    decreases n,
{
    if n > 0 {
        lemma_iter_keeps_nonzero(x, (n - 1) as nat);
        lemma_step_keeps_nonzero(xorshift_iter(x, (n - 1) as nat));
    }
}


/// The generator's step is one-to-one: different states never lead to the
/// same next state, so a draw determines the state it was drawn from, and
/// (the states being finitely many) the step is a permutation of them.
pub proof fn lemma_step_injective(a: u32, b: u32)
    requires
        xorshift_step(a) == xorshift_step(b),
    ensures
        a == b,
{
    let a1 = a ^ (a << 13u32);
    let b1 = b ^ (b << 13u32);
    let a2 = a1 ^ (a1 >> 17u32);
    let b2 = b1 ^ (b1 >> 17u32);
    assert((a2 ^ (a2 << 5u32)) == (b2 ^ (b2 << 5u32)) ==> a2 == b2) by (bit_vector);
    assert((a1 ^ (a1 >> 17u32)) == (b1 ^ (b1 >> 17u32)) ==> a1 == b1) by (bit_vector);
    assert((a ^ (a << 13u32)) == (b ^ (b << 13u32)) ==> a == b) by (bit_vector);
}

/// Any number of steps is one-to-one as well.
pub proof fn lemma_iter_injective(a: u32, b: u32, n: nat)
    requires
        xorshift_iter(a, n) == xorshift_iter(b, n),
    ensures
        a == b,
    decreases n,
{
    if n > 0 {
        lemma_step_injective(xorshift_iter(a, (n - 1) as nat), xorshift_iter(b, (n - 1) as nat));
        lemma_iter_injective(a, b, (n - 1) as nat);
    }
}

} // verus!
