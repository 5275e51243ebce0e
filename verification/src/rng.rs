//! Deterministic generator for scenery placement.
//!
//! The scene must look identical on every frame and on every launch, so nothing
//! visual may come from a real random source: stars, speckles and mountain
//! profiles are all derived from a fixed seed. This is a 64-bit xorshift.

use vstd::prelude::*;

verus! {

/// One step of the 13/7/17 xorshift.
pub open spec fn xorshift(x: u64) -> u64 {
    let a = x ^ (x << 13u64);
    let b = a ^ (a >> 7u64);
    b ^ (b << 17u64)
}

/// The state after `n` steps from `state`.
pub open spec fn xorshift_iter(state: u64, n: nat) -> u64
    decreases n,
{
    if n == 0 {
        state
    } else {
        xorshift(xorshift_iter(state, (n - 1) as nat))
    }
}

/// The state a generator made from `seed` starts in.
pub open spec fn initial_state(seed: u64) -> u64 {
    seed | 1u64
}

/// A xorshift generator. Its state is never zero, because zero is a fixed
/// point of the step.
pub struct Rng(u64);

impl View for Rng {
    type V = u64;

    closed spec fn view(&self) -> u64 {
        self.0
    }
}

impl Rng {
    #[verifier::type_invariant]
    closed spec fn nonzero(self) -> bool {
        self.0 != 0
    }

    /// A generator seeded with `seed`, forced odd so that the state is not zero.
    pub fn new(seed: u64) -> (r: Self)
        ensures
            r@ == initial_state(seed),
            r@ == seed | 1u64,
    {
        let s = seed | 1;
        assert(s != 0) by (bit_vector)
            requires
                s == seed | 1u64,
        ;
        Rng(s)
    }

    /// Advance the state by one xorshift step and return the new state.
    pub fn next_u64(&mut self) -> (x: u64)
        ensures
            x == xorshift(old(self)@),
            final(self)@ == x,
            x != 0,
            x == ({
                let a = old(self)@ ^ (old(self)@ << 13u64);
                let b = a ^ (a >> 7u64);
                b ^ (b << 17u64)
            }),
    {
        proof {
            use_type_invariant(&*self);
            lemma_xorshift_nonzero(self.0);
        }
        let mut x = self.0;
        x ^= x << 13;
        x ^= x >> 7;
        x ^= x << 17;
        self.0 = x;
        x
    }

    /// The top 24 bits of the next draw. As a fraction of `2^24` this is the
    /// uniform value in `0.0..1.0` that the scenery uses.
    pub fn next_unit_bits(&mut self) -> (u: u32)
        ensures
            final(self)@ == xorshift(old(self)@),
            u == final(self)@ >> 40u64,
            u < 0x100_0000,
    {
        let x = self.next_u64();
        let top = x >> 40;
        assert(top < 0x100_0000) by (bit_vector)
            requires
                top == x >> 40u64,
        ;
        top as u32
    }
}

/// Zero is the only fixed point that matters: a nonzero state never steps to
/// zero, so a generator never gets stuck.
pub proof fn lemma_xorshift_nonzero(x: u64)
    requires
        x != 0,
    ensures
        xorshift(x) != 0,
{
    let a = x ^ (x << 13u64);
    let b = a ^ (a >> 7u64);
    assert(a != 0) by (bit_vector)
        requires
            x != 0,
            a == x ^ (x << 13u64),
    ;
    assert(b != 0) by (bit_vector)
        requires
            a != 0,
            b == a ^ (a >> 7u64),
    ;
    assert(b ^ (b << 17u64) != 0) by (bit_vector)
        requires
            b != 0,
    ;
}

/// Every state a generator passes through, from any seed and after any
/// number of draws, is nonzero: the forced-odd seed and the step together keep
/// the generator off its fixed point for good.
pub proof fn lemma_reachable_states_nonzero(seed: u64, n: nat)
    ensures
        xorshift_iter(initial_state(seed), n) != 0,
    decreases n,
{
    if n == 0 {
        assert(seed | 1u64 != 0) by (bit_vector);
    } else {
        lemma_reachable_states_nonzero(seed, (n - 1) as nat);
        lemma_xorshift_nonzero(xorshift_iter(initial_state(seed), (n - 1) as nat));
    }
}

/// The step moves every nonzero state: no state but zero steps to itself, so
/// successive draws never repeat one value for good.
pub proof fn lemma_xorshift_no_fixed_point(x: u64)
    requires
        x != 0,
    ensures
        xorshift(x) != x,
{
    let a = x ^ (x << 13u64);
    let b = a ^ (a >> 7u64);
    assert(b ^ (b << 17u64) != x) by (bit_vector)
        requires
            x != 0,
            a == x ^ (x << 13u64),
            b == a ^ (a >> 7u64),
    ;
}

/// The step is linear over bit vectors: stepping the XOR of two states gives
/// the XOR of their steps, and zero steps to zero. This holds of the
/// 13/7/17 shift-and-XOR on every state, with no exceptions.
pub proof fn lemma_xorshift_linear(x: u64, y: u64)
    ensures
        xorshift(x ^ y) == xorshift(x) ^ xorshift(y),
        xorshift(0) == 0,
{
    let ax = x ^ (x << 13u64);
    let bx = ax ^ (ax >> 7u64);
    let ay = y ^ (y << 13u64);
    let by = ay ^ (ay >> 7u64);
    let z = x ^ y;
    let az = z ^ (z << 13u64);
    let bz = az ^ (az >> 7u64);
    assert(az == ax ^ ay) by (bit_vector)
        requires
            z == x ^ y,
            az == z ^ (z << 13u64),
            ax == x ^ (x << 13u64),
            ay == y ^ (y << 13u64),
    ;
    assert(bz == bx ^ by) by (bit_vector)
        requires
            az == ax ^ ay,
            bz == az ^ (az >> 7u64),
            bx == ax ^ (ax >> 7u64),
            by == ay ^ (ay >> 7u64),
    ;
    assert(bz ^ (bz << 17u64) == (bx ^ (bx << 17u64)) ^ (by ^ (by << 17u64))) by (bit_vector)
        requires
            bz == bx ^ by,
    ;
    assert(xorshift(0) == 0) by (bit_vector);
}

/// Different states step to different states, so two generators that differ
/// now differ after every further draw.
pub proof fn lemma_xorshift_injective(x: u64, y: u64)
    requires
        x != y,
    ensures
        xorshift(x) != xorshift(y),
{
    lemma_xorshift_linear(x, y);
    assert(x ^ y != 0) by (bit_vector)
        requires
            x != y,
    ;
    lemma_xorshift_nonzero(x ^ y);
    let fx = xorshift(x);
    let fy = xorshift(y);
    assert(fx ^ fy != 0);
    assert(fx != fy) by (bit_vector)
        requires
            fx ^ fy != 0u64,
    ;
}

} // verus!
