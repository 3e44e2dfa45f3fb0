//! A small deterministic bit mixer that turns a 32-bit seed into a stream of
//! cell values.

use vstd::prelude::*;

verus! {

/// The state that stands in for a seed of zero.
pub const ZERO_SEED_STATE: u32 = 0xDEAD_BEEF;

/// One round of the mixer: three shifts, each folded back in with
/// exclusive or, on 32 bits. Bits shifted out at the top are lost.
pub open spec fn xorshift(x: u32) -> u32 {
    let a = x ^ (x << 13u32);
    let b = a ^ (a >> 17u32);
    b ^ (b << 5u32)
}

/// The state a generator starts from: the seed itself, or the fixed
/// substitute when the seed is zero.
pub open spec fn initial_state(seed: u32) -> u32 {
    if seed == 0 {
        ZERO_SEED_STATE
    } else {
        seed
    }
}

/// The state reached from `state` after `rounds` rounds of the mixer.
pub open spec fn state_after(state: u32, rounds: nat) -> u32
    decreases rounds,
{
    if rounds == 0 {
        state
    } else {
        xorshift(state_after(state, (rounds - 1) as nat))
    }
}

/// The byte that a state gives out: its low eight bits.
pub open spec fn byte_of(state: u32) -> u8 {
    (state % 256) as u8
}

/// The cell value that a state gives out: 1 when its byte is above 128,
/// and 0 when it is 128 or below.
pub open spec fn cell_of(state: u32) -> u8 {
    if byte_of(state) > 128 {
        1
    } else {
        0
    }
}

/// A round of the mixer never turns a non-zero state into zero.
pub proof fn lemma_xorshift_nonzero(x: u32)
    requires
        x != 0,
    ensures
        xorshift(x) != 0,
{
    let a = x ^ (x << 13u32);
    let b = a ^ (a >> 17u32);
    assert(x != 0 ==> x ^ (x << 13u32) != 0) by (bit_vector);
    assert(a != 0 ==> a ^ (a >> 17u32) != 0) by (bit_vector);
    assert(b != 0 ==> b ^ (b << 5u32) != 0) by (bit_vector);
}

/// A seed of zero gives the stream of the substitute seed: after any
/// number of rounds the two generators are in the same state, so they give
/// out the same bytes and the same cell values.
pub proof fn lemma_zero_seed_stream(rounds: nat)
    ensures
        state_after(initial_state(0), rounds) == state_after(
            initial_state(ZERO_SEED_STATE),
            rounds,
        ),
{
}

/// A 32-bit xorshift generator.
pub struct Xorshift32 {
    state: u32,
}

impl View for Xorshift32 {
    type V = u32;

    closed spec fn view(&self) -> u32 {
        self.state
    }
}

impl Xorshift32 {
    /// The state is never zero: zero is a fixed point of the mixer, from
    /// which only zeros would follow.
    #[verifier::type_invariant]
    pub open spec fn valid(&self) -> bool {
        self@ != 0
    }

    /// Starts a generator from `seed`.
    pub fn new(seed: u32) -> (generator: Self)
        ensures
            generator@ == initial_state(seed),
    {
        let state: u32 = if seed == 0 {
            ZERO_SEED_STATE
        } else {
            seed
        };
        Xorshift32 { state }
    }

    /// Advances the generator by one round and gives out the byte of the
    /// new state.
    pub fn next_u8(&mut self) -> (byte: u8)
        ensures
            final(self)@ == xorshift(old(self)@),
            byte == byte_of(final(self)@),
    {
        proof {
            use_type_invariant(&*self);
            lemma_xorshift_nonzero(self.state);
        }
        let mut x: u32 = self.state;
        x ^= x << 13;
        x ^= x >> 17;
        x ^= x << 5;
        self.state = x;
        assert(x & 0xFF == x % 256) by (bit_vector);
        (x & 0xFF) as u8
    }

    /// Advances the generator by one round and gives out the cell value of
    /// the new state.
    pub fn next_bool(&mut self) -> (cell: u8)
        ensures
            final(self)@ == xorshift(old(self)@),
            cell == cell_of(final(self)@),
    {
        if self.next_u8() > 128 {
            1
        } else {
            0
        }
    }
}

} // verus!
