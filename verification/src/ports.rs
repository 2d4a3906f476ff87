//! The ephemeral port range, the injectable random source that draws from
//! it, and the order in which the allocator's fallback sweep walks it.

use vstd::prelude::*;

verus! {

/// The lowest port the allocator ever hands out; lower ports are left free
/// for well-known and explicitly requested binds.
pub const MIN_RANDOM_PORT: u16 = 10000;

/// How many probe draws the allocator makes before falling back to a linear
/// sweep of the whole range.
pub const NUM_RANDOM_PROBES: u32 = 10;

/// How many ports the ephemeral range `[MIN_RANDOM_PORT, u16::MAX]` holds.
pub open spec fn sweep_len() -> int {
    0x10000 - MIN_RANDOM_PORT as int
}

/// Whether `p` lies in the ephemeral port range the allocator draws from.
pub open spec fn in_ephemeral_range(p: u16) -> bool {
    MIN_RANDOM_PORT <= p
}

/// The `i`-th port the fallback sweep visits when it starts at `start`:
/// `start, start + 1, ..., 65535, MIN_RANDOM_PORT, ..., start - 1`.
pub open spec fn sweep_port(start: u16, i: int) -> u16
    recommends
        MIN_RANDOM_PORT <= start,
        0 <= i < sweep_len(),
{
    if start + i <= u16::MAX {
        (start + i) as u16
    } else {
        (start + i - sweep_len()) as u16
    }
}

/// Law: the fallback sweep visits every port of the ephemeral range exactly
/// once before concluding exhaustion: wherever it starts, its visit slots
/// stay inside the range, are pairwise distinct, and cover every port of the
/// range.
pub proof fn lemma_sweep_visits_each_port_once(start: u16)
    requires
        MIN_RANDOM_PORT <= start,
    ensures
        forall|i: int|
            0 <= i < sweep_len() ==> MIN_RANDOM_PORT <= #[trigger] sweep_port(start, i),
        forall|i: int, j: int|
            0 <= i < j < sweep_len() ==> sweep_port(start, i) != sweep_port(start, j),
        forall|p: u16|
            #[trigger] in_ephemeral_range(p) ==> exists|i: int|
                0 <= i < sweep_len() && #[trigger] sweep_port(start, i) == p,
{
    assert forall|p: u16| #[trigger] in_ephemeral_range(p) implies exists|i: int|
        0 <= i < sweep_len() && #[trigger] sweep_port(start, i) == p by {
        if p >= start {
            let i = p - start;
            assert(sweep_port(start, i) == p);
        } else {
            let i = p - start + sweep_len();
            assert(sweep_port(start, i) == p);
        }
    }
}

/// A deterministic random source for port draws: the same seed yields the
/// same sequence of draws, as repeatable simulation runs require.
pub struct PortRng {
    rng: rand::rngs::StdRng,
}

#[verifier::external_type_specification]
#[verifier::external_body]
pub struct ExStdRng(rand::rngs::StdRng);

/// Relies on rand's `SeedableRng::seed_from_u64` for `StdRng`: builds a
/// generator whose draws are a function of the seed alone.
#[verifier::external_body]
fn seeded_std_rng(seed: u64) -> rand::rngs::StdRng {
    <rand::rngs::StdRng as rand::SeedableRng>::seed_from_u64(seed)
}

/// Relies on rand's `Rng::gen_range` on a non-empty inclusive range: the
/// sample lies within the range. Which value comes back is not stated: the
/// callers hold for every outcome.
#[verifier::external_body]
fn gen_range_u16(rng: &mut rand::rngs::StdRng, lo: u16, hi: u16) -> (p: u16)
    requires
        lo <= hi,
    ensures
        lo <= p <= hi,
{
    rand::Rng::gen_range(rng, lo..=hi)
}

impl PortRng {
    /// A generator seeded with `seed`; equal seeds replay equal draws.
    pub fn from_seed(seed: u64) -> PortRng {
        PortRng { rng: seeded_std_rng(seed) }
    }

    /// One uniform draw from the ephemeral port range.
    pub fn draw_ephemeral(&mut self) -> (p: u16)
        ensures
            MIN_RANDOM_PORT <= p,
    {
        gen_range_u16(&mut self.rng, MIN_RANDOM_PORT, u16::MAX)
    }
}

} // verus!
