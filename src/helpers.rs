//! Bit helpers shared by the instruction handlers.
use vstd::prelude::*;

verus! {

/// How a shift chooses the bit that enters the register.
#[derive(Debug, Clone, Copy, PartialEq, Eq, Structural)]
pub enum ShiftMode {
    /// The current carry flag enters.
    Carry,
    /// The lowest bit of the given number enters.
    Number(u8),
    /// The bit already at the entering end is repeated.
    Repeat,
}

/// Number of one bits in `n`.
pub open spec fn ones(n: nat) -> nat
    decreases n,
{
    if n == 0 {
        0
    } else {
        n % 2 + ones(n / 2)
    }
}

/// True when `n` has an even number of one bits.
pub open spec fn even_ones(n: u8) -> bool {
    ones(n as nat) % 2 == 0
}

/// Tells whether `n` has an even number of one bits.
pub fn bit_oddity(n: u8) -> (r: bool)
    ensures
        r == even_ones(n),
{
    let mut m: u8 = n;
    let mut amount_of_ones: u32 = 0;
    proof {
        lemma_ones_at_most(n as nat);
    }
    while m > 0
        invariant
            amount_of_ones + ones(m as nat) == ones(n as nat),
            ones(n as nat) <= 255,
        decreases m,
    {
        assert((m & 1u8) == m % 2) by (bit_vector);
        assert((m >> 1u8) == m / 2) by (bit_vector);
        amount_of_ones = amount_of_ones + (m & 1) as u32;
        m = m >> 1;
    }
    amount_of_ones % 2 == 0
}

proof fn lemma_ones_at_most(n: nat)
    ensures
        ones(n) <= n,
    decreases n,
{
    if n > 0 {
        lemma_ones_at_most(n / 2);
    }
}

} // verus!
