//! A 16-bit linear-feedback shift register and the byte stream it emits.
use vstd::prelude::*;

verus! {

/// The state one step past 0x8988; it fixes the level layout.
pub const INIT_SEED: u16 = 0x44c4;

/// The successor of a register state: the new top bit is bit 9 xor bit 1.
pub open spec fn next_seed_spec(seed: u16) -> u16 {
    ((((seed >> 9u16) ^ (seed >> 1u16)) & 1u16) << 15u16) | (seed >> 1u16)
}

/// The byte that a register state emits: its top byte.
pub open spec fn seed_to_rng_spec(seed: u16) -> u8 {
    (seed >> 8u16) as u8
}

/// The state after `n` steps from `seed`.
pub open spec fn seed_after(seed: u16, n: nat) -> u16
    decreases n,
{
    if n == 0 {
        seed
    } else {
        next_seed_spec(seed_after(seed, (n - 1) as nat))
    }
}

/// States that are the successor of some state: bit 15 is bit 8 xor bit 0.
pub open spec fn is_successor_state(s: u16) -> bool {
    (s >> 15u16) & 1u16 == ((s >> 8u16) ^ s) & 1u16
}

/// Advances a register state by one step.
pub fn next_seed(seed: u16) -> (r: u16)
    ensures
        r == next_seed_spec(seed),
{
    let new_bit: u16 = ((seed >> 9u16) ^ (seed >> 1u16)) & 1u16;
    (new_bit << 15u16) | (seed >> 1u16)
}

/// The byte that a register state emits.
pub fn seed_to_rng(seed: u16) -> (r: u8)
    ensures
        r == seed_to_rng_spec(seed),
        r as int == seed as int / 256,
{
    let r = (seed >> 8u16) as u8;
    assert(((seed >> 8u16) as u8) as int == seed as int / 256) by (bit_vector);
    r
}

/// The first `n` states from `INIT_SEED`, one per tile of a level.
pub fn get_seeds(n: usize) -> (r: Vec<u16>)
    ensures
        r@.len() == n,
        forall|i: int| 0 <= i < n ==> r@[i] == seed_after(INIT_SEED, i as nat),
{
    let mut out: Vec<u16> = Vec::with_capacity(n);
    let mut seed: u16 = INIT_SEED;
    let mut i: usize = 0;
    while i < n
        invariant
            i <= n,
            out@.len() == i,
            seed == seed_after(INIT_SEED, i as nat),
            forall|j: int| 0 <= j < i ==> out@[j] == seed_after(INIT_SEED, j as nat),
        decreases n - i,
    {
        out.push(seed);
        seed = next_seed(seed);
        i = i + 1;
    }
    out
}

/// A pseudo-random generator over the shift register.
pub struct Rng(pub u16);

impl Rng {
    /// A generator at `seed`, or at `INIT_SEED` when none is given.
    pub fn new(seed: Option<u16>) -> (r: Self)
        ensures
            r.0 == match seed {
                Some(s) => s,
                None => INIT_SEED,
            },
    {
        match seed {
            Some(s) => Rng(s),
            None => Rng(INIT_SEED),
        }
    }

    /// Advances the state by one step.
    pub fn cycle(&mut self)
        ensures
            final(self).0 == next_seed_spec(old(self).0),
    {
        self.0 = next_seed(self.0);
    }

    /// The byte that the current state emits; the state is kept.
    pub fn get(&self) -> (r: u8)
        ensures
            r == seed_to_rng_spec(self.0),
    {
        seed_to_rng(self.0)
    }

    /// Advances the state and returns the byte that the new state emits.
    pub fn next(&mut self) -> (r: u8)
        ensures
            final(self).0 == next_seed_spec(old(self).0),
            r == seed_to_rng_spec(final(self).0),
    {
        self.cycle();
        self.get()
    }
}

/// Every successor state has the successor shape.
pub proof fn lemma_next_is_successor_state(seed: u16)
    ensures
        is_successor_state(next_seed_spec(seed)),
{
    assert(is_successor_state(
        ((((seed >> 9u16) ^ (seed >> 1u16)) & 1u16) << 15u16) | (seed >> 1u16),
    )) by (bit_vector);
}

/// On the states that some state steps to, the step is one-to-one: past the
/// first step no two states share a successor.
pub proof fn lemma_next_injective_on_successors(a: u16, b: u16)
    requires
        is_successor_state(a),
        is_successor_state(b),
        next_seed_spec(a) == next_seed_spec(b),
    ensures
        a == b,
{
    assert(a == b) by (bit_vector)
        requires
            (a >> 15u16) & 1u16 == ((a >> 8u16) ^ a) & 1u16,
            (b >> 15u16) & 1u16 == ((b >> 8u16) ^ b) & 1u16,
            ((((a >> 9u16) ^ (a >> 1u16)) & 1u16) << 15u16) | (a >> 1u16) == ((((b >> 9u16) ^ (b
                >> 1u16)) & 1u16) << 15u16) | (b >> 1u16),
    ;
}

} // verus!
