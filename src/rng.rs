use vstd::prelude::*;

verus! {

/// Seed used in place of zero, which is a fixed point of the xorshift step.
pub const ZERO_SEED_REPLACEMENT: u64 = 0x9e3779b97f4a7c15;

/// Mixing constant of the initial-balance stream.
pub const INIT_STREAM: u64 = 0x53a9_e5b1_6f1d_6b29;

/// Mixing constant of the operations stream.
pub const OP_STREAM: u64 = 0xa5a3_98d7_612c_e4b5;

/// One xorshift step: `x ^= x << 13; x ^= x >> 7; x ^= x << 17`.
pub open spec fn xorshift_step(x: u64) -> u64 {
    let a = x ^ (x << 13u64);
    let b = a ^ (a >> 7u64);
    b ^ (b << 17u64)
}

/// The state a generator starts in for a given seed.
pub open spec fn start_state(seed: u64) -> u64 {
    if seed == 0 {
        ZERO_SEED_REPLACEMENT
    } else {
        seed
    }
}

/// The splitmix-style avalanche finalizer applied to `seed` for one stream.
pub open spec fn mix(seed: u64, stream: u64) -> u64 {
    let z0 = seed.wrapping_add(stream.wrapping_mul(0x9e3779b97f4a7c15));
    let z1 = (z0 ^ (z0 >> 30u64)).wrapping_mul(0xbf58476d1ce4e5b9);
    let z2 = (z1 ^ (z1 >> 27u64)).wrapping_mul(0x94d049bb133111eb);
    z2 ^ (z2 >> 31u64)
}

/// A 64-bit xorshift pseudo-random generator.
#[derive(Clone, Copy, Debug)]
pub struct XorShift64 {
    pub state: u64,
}

impl XorShift64 {
    pub fn new(seed: u64) -> (r: Self)
        ensures
            r.state == start_state(seed),
            r.state != 0,
    {
        let seed = if seed == 0 {
            ZERO_SEED_REPLACEMENT
        } else {
            seed
        };
        XorShift64 { state: seed }
    }

    pub fn next_u64(&mut self) -> (r: u64)
        ensures
            r == xorshift_step(old(self).state),
            final(self).state == r,
    {
        let mut x = self.state;
        x = x ^ (x << 13u64);
        x = x ^ (x >> 7u64);
        x = x ^ (x << 17u64);
        self.state = x;
        x
    }
}

/// Applies the avalanche finalizer to `seed` for the stream named by `stream`.
pub fn mix_seed(seed: u64, stream: u64) -> (r: u64)
    ensures
        r == mix(seed, stream),
{
    let mut z = seed.wrapping_add(stream.wrapping_mul(0x9e3779b97f4a7c15));
    z = (z ^ (z >> 30u64)).wrapping_mul(0xbf58476d1ce4e5b9);
    z = (z ^ (z >> 27u64)).wrapping_mul(0x94d049bb133111eb);
    z ^ (z >> 31u64)
}

/// Derives the initial-balance stream and the operations stream of a case seed.
pub fn make_rng_streams(seed: u64) -> (r: (XorShift64, XorShift64))
    ensures
        r.0.state == start_state(mix(seed, INIT_STREAM)),
        r.1.state == start_state(mix(seed, OP_STREAM)),
{
    let init_seed = mix_seed(seed, INIT_STREAM);
    let op_seed = mix_seed(seed, OP_STREAM);
    (XorShift64::new(init_seed), XorShift64::new(op_seed))
}

} // verus!
