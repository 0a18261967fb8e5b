//! A small linear congruential generator: deterministic and lock-free.

use vstd::prelude::*;

verus! {

/// Multiplier of the generator (Knuth's MMIX constant).
pub const LCG_MUL: u64 = 6364136223846793005;

/// Increment of the generator.
pub const LCG_INC: u64 = 1442695040888963407;

/// The state after one step: `state * LCG_MUL + LCG_INC` modulo 2^64.
pub open spec fn lcg_next(state: u64) -> u64 {
    ((state as nat * LCG_MUL as nat + LCG_INC as nat) % 0x1_0000_0000_0000_0000nat) as u64
}

/// Linear congruential generator. The state is the last value produced.
#[derive(Clone, Debug)]
pub struct LcgRng(u64);

impl View for LcgRng {
    type V = u64;

    closed spec fn view(&self) -> u64 {
        self.0
    }
}

#[verifier::external_type_specification]
#[verifier::external_body]
pub struct ExSystemTime(std::time::SystemTime);

/// `SystemTime::now()`: the current wall-clock time. Nothing is stated of it.
#[verifier::external_body]
fn system_now() -> std::time::SystemTime {
    std::time::SystemTime::now()
}

/// `SystemTime::duration_since(UNIX_EPOCH)`: the time since the Unix epoch,
/// `None` when `t` lies before it. Nothing is stated of the duration, which
/// depends on `t` (an opaque time).
#[verifier::external_body]
fn since_epoch(t: &std::time::SystemTime) -> Option<std::time::Duration> {
    t.duration_since(std::time::SystemTime::UNIX_EPOCH).ok()
}

/// `Duration::as_nanos`: the whole nanoseconds of `d`. Nothing is stated of
/// the value, since `d` is opaque here.
#[verifier::external_body]
fn duration_nanos(d: &std::time::Duration) -> u128 {
    d.as_nanos()
}

/// The seed a clock reading gives: nanoseconds since the Unix epoch truncated
/// to their low 64 bits, or 1 for a clock that reads before the epoch.
pub open spec fn seed_from_nanos_spec(nanos: Option<u128>) -> u64 {
    match nanos {
        Some(n) => (n % 0x1_0000_0000_0000_0000) as u64,
        None => 1,
    }
}

/// The seed for a clock reading (see [`seed_from_nanos_spec`]).
pub fn seed_from_nanos(nanos: Option<u128>) -> (s: u64)
    ensures
        s == seed_from_nanos_spec(nanos),
{
    match nanos {
        Some(n) => {
            let s = n as u64;
            assert(s == (n % 0x1_0000_0000_0000_0000) as u64) by (bit_vector)
                requires
                    s == n as u64,
            ;
            s
        },
        None => 1,
    }
}

/// Seed taken from the wall clock (see [`seed_from_nanos`]). The reading
/// depends on the time, so nothing is stated of the seed.
fn clock_seed() -> u64 {
    let now = system_now();
    let nanos = match since_epoch(&now) {
        Some(d) => Some(duration_nanos(&d)),
        None => None,
    };
    seed_from_nanos(nanos)
}

impl LcgRng {
    /// A generator seeded with `seed` (forced odd).
    pub fn new(seed: u64) -> (r: Self)
        ensures
            r@ == seed | 1,
    {
        LcgRng(seed | 1)
    }

    /// A generator seeded from the wall clock.
    pub fn new_random() -> (r: Self)
        ensures
            r@ % 2 == 1,
    {
        let seed = clock_seed();
        let r = Self::new(seed);
        assert((seed | 1) % 2 == 1) by (bit_vector);
        r
    }

    /// Advance the generator and return its new state.
    pub fn next_u64(&mut self) -> (v: u64)
        ensures
            v == lcg_next(old(self)@),
            final(self)@ == v,
    {
        let m = self.0.wrapping_mul(LCG_MUL);
        let s = m.wrapping_add(LCG_INC);
        proof {
            let p = self.0 as nat * LCG_MUL as nat;
            let big = 0x1_0000_0000_0000_0000nat;
            let r = p % big;
            vstd::arithmetic::div_mod::lemma_fundamental_div_mod(p as int, big as int);
            let q = p / big;
            vstd::arithmetic::div_mod::lemma_mod_multiples_vanish(q as int, (r + LCG_INC as nat) as int, big as int);
            assert(p + LCG_INC as nat == big * q + (r + LCG_INC as nat));
            if r + LCG_INC as nat >= big {
                vstd::arithmetic::div_mod::lemma_mod_multiples_vanish(1, (r + LCG_INC as nat - big) as int, big as int);
                vstd::arithmetic::div_mod::lemma_small_mod((r + LCG_INC as nat - big) as nat, big);
            } else {
                vstd::arithmetic::div_mod::lemma_small_mod((r + LCG_INC as nat) as nat, big);
            }
        }
        self.0 = s;
        s
    }

    /// A value in `0..max` (0 when `max` is 0), taken from the next state.
    pub fn next_usize(&mut self, max: usize) -> (v: usize)
        ensures
            max == 0 ==> v == 0 && final(self)@ == old(self)@,
            max > 0 ==> v == (lcg_next(old(self)@) as nat) % (max as nat) && v < max && final(self)@
                == lcg_next(old(self)@),
    {
        if max == 0 {
            return 0;
        }
        let x = self.next_u64();
        (x % max as u64) as usize
    }
}

} // verus!
