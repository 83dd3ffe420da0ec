//! `java.util.Random` and the Minecraft slime-chunk check
//!
//! Slime chunks in Java Edition are determined by seeding a `java.util.Random`
//! with a value derived from the world seed and the chunk coordinates, so
//! finding them requires a bit-for-bit compatible generator.

use crate::bytes;
use vstd::arithmetic::power2::*;
use vstd::prelude::*;

verus! {

/// Multiplier of the `java.util.Random` linear congruential generator
const MULTIPLIER: u64 = 0x5DEECE66D;

/// Increment of the `java.util.Random` linear congruential generator
const INCREMENT: u64 = 0xB;

/// Number of states of the generator
const STATES: u64 = 0x1_0000_0000_0000;

/// The state that follows a state
pub open spec fn next_state(s: int) -> int {
    (0x5DEECE66D * s + 0xB) % 0x1_0000_0000_0000
}

/// The state after `n` steps
pub open spec fn state_after(s: int, n: nat) -> int
    decreases n,
{
    if n == 0 {
        s
    } else {
        next_state(state_after(s, (n - 1) as nat))
    }
}

/// The state that a seed stands for: its low 48 bits, scrambled
pub open spec fn seed_state(seed: i64) -> int {
    ((seed ^ 0x5DEECE66D) & 0xFFFF_FFFF_FFFF) as int
}

/// The highest `bits` bits of a state, as a 32-bit number
pub open spec fn high_bits(s: int, bits: u32) -> i32 {
    bytes::signed32(s / pow2((48 - bits) as nat) as int % 0x1_0000_0000)
}

/// The 31-bit number that is rolled `i` rolls after the state `s`
pub open spec fn roll(s: int, i: nat) -> int {
    state_after(s, i + 1) / 0x2_0000
}

/// A roll lies in a full run of `bound` numbers, so that its remainder is kept
pub open spec fn kept(roll: int, bound: int) -> bool {
    roll - roll % bound + (bound - 1) <= i32::MAX
}

/// The roll number `n` is the first after the state `s` that is kept
pub open spec fn first_kept(s: int, bound: int, n: nat) -> bool {
    &&& kept(roll(s, n), bound)
    &&& forall|i: nat| i < n ==> !kept(#[trigger] roll(s, i), bound)
}

/// A number is a power of two
pub open spec fn power_of_two(bound: int) -> bool {
    exists|e: nat| bound == #[trigger] pow2(e)
}

/// A bit-compatible `java.util.Random`
pub struct JavaRandom {
    /// Current 48-bit generator state
    seed: u64,
}

impl JavaRandom {
    /// Current 48-bit generator state
    pub closed spec fn state(&self) -> int {
        self.seed as int
    }

    #[verifier::type_invariant]
    spec fn in_range(&self) -> bool {
        self.seed < STATES
    }

    /// Creates a new generator from a seed (matching `new Random(seed)`)
    pub fn new(seed: i64) -> (r: Self)
        ensures
            r.state() == seed_state(seed),
    {
        let scrambled: i64 = (seed ^ 0x5DEECE66D) & 0xFFFF_FFFF_FFFF;
        assert(0 <= scrambled < 0x1_0000_0000_0000) by (bit_vector)
            requires
                scrambled == (seed ^ 0x5DEECE66D) & 0xFFFF_FFFF_FFFF,
        ;
        JavaRandom { seed: scrambled as u64 }
    }

    /// Returns the next `bits` pseudorandom bits (matching `Random.next(bits)`)
    pub fn next(&mut self, bits: u32) -> (r: i32)
        requires
            bits <= 48,
        ensures
            final(self).state() == next_state(old(self).state()),
            r == high_bits(final(self).state(), bits),
            0 <= final(self).state() < 0x1_0000_0000_0000,
            0 <= old(self).state() < 0x1_0000_0000_0000,
    {
        proof {
            use_type_invariant(&*self);
        }
        assert(MULTIPLIER as u128 * self.seed as u128 <= 0x5DEECE66D * 0x1_0000_0000_0000)
            by (nonlinear_arith)
            requires
                MULTIPLIER == 0x5DEECE66D,
                self.seed < 0x1_0000_0000_0000,
        ;
        let seed: u64 = ((MULTIPLIER as u128 * self.seed as u128 + INCREMENT as u128)
            % STATES as u128) as u64;
        self.seed = seed;
        let shift: u64 = (48 - bits) as u64;
        proof {
            vstd::bits::lemma_u64_shr_is_div(seed, shift);
        }
        let high: u64 = seed >> shift;
        bytes::as_signed32((high % 0x1_0000_0000) as u32)
    }

    /// Returns a pseudorandom value in `0..bound` (matching `Random.nextInt(int)`)
    pub fn next_int(&mut self, bound: i32) -> (r: i32)
        requires
            bound > 0,
        ensures
            0 <= r < bound,
            power_of_two(bound as int) ==> {
                &&& r == bound * roll(old(self).state(), 0) / 0x8000_0000
                &&& final(self).state() == state_after(old(self).state(), 1)
            },
            !power_of_two(bound as int) ==> exists|n: nat|
                {
                    &&& #[trigger] first_kept(old(self).state(), bound as int, n)
                    &&& r == roll(old(self).state(), n) % bound as int
                    &&& final(self).state() == state_after(old(self).state(), n + 1)
                },
    {
        let ghost start = self.state();
        proof {
            use_type_invariant(&*self);
            lemma2_to64();
            reveal_with_fuel(state_after, 2);
        }
        // Power-of-two bounds use a faster path in the JDK
        let low: i32 = bound & (bound - 1);
        proof {
            power_of_two_test(bound);
        }
        if low == 0 {
            let bits: i32 = self.next(31);
            proof {
                roll_in_range(self.state());
            }
            assert(bits == roll(start, 0));
            assert(0 <= bound as i64 * bits as i64 <= 0x8000_0000 * 0x8000_0000)
                by (nonlinear_arith)
                requires
                    0 <= bits < 0x8000_0000,
                    0 < bound < 0x8000_0000,
            ;
            let product: i64 = bound as i64 * bits as i64;
            assert(0 <= product < bound * 0x8000_0000 && 0 <= product / 0x8000_0000 < bound)
                by (nonlinear_arith)
                requires
                    product == bound * bits,
                    0 <= bits < 0x8000_0000,
                    bound > 0,
            ;
            return (product / 0x8000_0000) as i32;
        }
        let ghost mut tries: nat = 0;
        loop
            invariant
                bound > 0,
                start == old(self).state(),
                0 <= start < 0x1_0000_0000_0000,
                !power_of_two(bound as int),
                self.state() == state_after(start, tries),
                forall|i: nat| i < tries ==> !kept(#[trigger] roll(start, i), bound as int),
                tries <= 0x8000_0000_0000,
            decreases 0x8000_0000_0000 - tries,
        {
            let bits: i32 = self.next(31);
            proof {
                lemma2_to64();
                roll_in_range(self.state());
            }
            assert(bits == roll(start, tries));
            let val: i32 = bits % bound;
            assert(bits as int - val >= 0) by (nonlinear_arith)
                requires
                    0 <= bits,
                    bound > 0,
                    val == bits as int % bound as int,
            ;
            if (bits - val) as i64 + (bound - 1) as i64 <= i32::MAX as i64 {
                assert(first_kept(start, bound as int, tries));
                return val;
            }
            proof {
                assert(!kept(roll(start, tries), bound as int));
                tries = tries + 1;
                some_roll_kept(start, bound as int, tries);
            }
        }
    }
}

/// A state holds a 31-bit number
proof fn roll_in_range(s: int)
    requires
        0 <= s < 0x1_0000_0000_0000,
    ensures
        0 <= s / 0x2_0000 < 0x8000_0000,
        high_bits(s, 31) == s / 0x2_0000,
{
    lemma2_to64();
}

/// A positive number is a power of two just if clearing its lowest set bit leaves nothing
proof fn power_of_two_test(bound: i32)
    requires
        bound > 0,
    ensures
        (bound & (bound - 1) as i32) == 0 <==> power_of_two(bound as int),
{
    let n = bound as u32;
    let m = (n - 1) as u32;
    assert(bound & (bound - 1) as i32 == (n & m) as i32) by (bit_vector)
        requires
            bound > 0,
            n == bound as u32,
            m == (n - 1) as u32,
    ;
    assert(n & m < 0x8000_0000) by (bit_vector)
        requires
            n < 0x8000_0000,
            m < 0x8000_0000,
    ;
    power_of_two_bits(n);
}

proof fn power_of_two_bits(n: u32)
    requires
        n > 0,
    ensures
        (n & (n - 1) as u32) == 0 <==> power_of_two(n as int),
    decreases n,
{
    if n == 1 {
        lemma2_to64();
        assert(1u32 & 0u32 == 0) by (bit_vector);
        assert(pow2(0) == n);
    } else if n % 2 == 1 {
        let m = (n - 1) as u32;
        assert(n & m != 0) by (bit_vector)
            requires
                n % 2 == 1,
                n > 1,
                m == (n - 1) as u32,
        ;
        assert forall|e: nat| n as int != #[trigger] pow2(e) by {
            if e == 0 {
                lemma2_to64();
            } else {
                lemma_pow2_unfold(e);
            }
        }
    } else {
        let h = (n / 2) as u32;
        let m = (n - 1) as u32;
        let g = (h - 1) as u32;
        assert((n & m) == 0 <==> (h & g) == 0) by (bit_vector)
            requires
                n % 2 == 0,
                n > 1,
                h == n / 2,
                m == (n - 1) as u32,
                g == (h - 1) as u32,
        ;
        power_of_two_bits(h);
        if power_of_two(h as int) {
            let e = choose|e: nat| h as int == #[trigger] pow2(e);
            lemma_pow2_unfold(e + 1);
            assert(n as int == pow2(e + 1));
        }
        if power_of_two(n as int) {
            let e = choose|e: nat| n as int == #[trigger] pow2(e);
            if e == 0 {
                lemma2_to64();
            } else {
                lemma_pow2_unfold(e);
                assert(h as int == pow2((e - 1) as nat));
            }
        }
    }
}

/// The states stay in their range
proof fn state_in_range(s: int, n: nat)
    requires
        0 <= s < 0x1_0000_0000_0000,
    ensures
        0 <= state_after(s, n) < 0x1_0000_0000_0000,
    decreases n,
{
    if n > 0 {
        state_in_range(s, (n - 1) as nat);
    }
}

/// Going on after `n` steps is the same as starting from the state reached by them
proof fn states_compose(s: int, n: nat, m: nat)
    ensures
        state_after(state_after(s, n), m) == state_after(s, n + m),
    decreases m,
{
    if m > 0 {
        states_compose(s, n, (m - 1) as nat);
    }
}

/// The factor by which `2^j` steps multiply the state
spec fn factor(j: nat) -> int
    decreases j,
{
    if j == 0 {
        0x5DEECE66D
    } else {
        factor((j - 1) as nat) * factor((j - 1) as nat)
    }
}

/// The number that `2^j` steps add to the multiplied state
spec fn addend(j: nat) -> int
    decreases j,
{
    if j == 0 {
        0xB
    } else {
        factor((j - 1) as nat) * addend((j - 1) as nat) + addend((j - 1) as nat)
    }
}

proof fn affine_states(s: int, j: nat)
    requires
        0 <= s < 0x1_0000_0000_0000,
    ensures
        state_after(s, pow2(j)) == (factor(j) * s + addend(j)) % 0x1_0000_0000_0000,
    decreases j,
{
    if j == 0 {
        lemma2_to64();
        reveal_with_fuel(state_after, 2);
    } else {
        let h = (j - 1) as nat;
        let half = pow2(h);
        lemma_pow2_unfold(j);
        states_compose(s, half, half);
        affine_states(s, h);
        state_in_range(s, half);
        let t = state_after(s, half);
        affine_states(t, h);
        let f = factor(h);
        let a = addend(h);
        let u = f * s + a;
        let m = 0x1_0000_0000_0000int;
        assert(t == u % m);
        // f * (u mod m) + a and f * u + a agree modulo m
        vstd::arithmetic::div_mod::lemma_mul_mod_noop_right(f, u, m);
        vstd::arithmetic::div_mod::lemma_add_mod_noop(f * t, a, m);
        vstd::arithmetic::div_mod::lemma_add_mod_noop(f * u, a, m);
        assert(f * u + a == factor(j) * s + addend(j)) by (nonlinear_arith)
            requires
                u == f * s + a,
                factor(j) == f * f,
                addend(j) == f * a + a,
        ;
    }
}

/// The factor of `2^j` steps is 1 modulo `2^(j + 2)`, and the addend is an odd multiple of
/// `2^j`
proof fn affine_residues(j: nat) -> (r: (int, int))
    ensures
        factor(j) == 1 + pow2(j + 2) * r.0,
        addend(j) == pow2(j) * (2 * r.1 + 1),
    decreases j,
{
    if j == 0 {
        lemma2_to64();
        assert(factor(0) == 1 + pow2(2) * 6303725979int);
        assert(addend(0) == pow2(0) * (2 * 5int + 1));
        (6303725979, 5)
    } else {
        let h = (j - 1) as nat;
        let (u, v) = affine_residues(h);
        lemma_pow2_unfold(j);
        lemma_pow2_unfold(j + 1);
        lemma_pow2_unfold(j + 2);
        let p = pow2(h) as int;
        assert(pow2(h + 2) == 4 * p && pow2(j) == 2 * p && pow2(j + 2) == 8 * p);
        let f = factor(h);
        let a = addend(h);
        let u2 = u + 2 * p * u * u;
        assert(f * f == 1 + (8 * p) * u2) by (nonlinear_arith)
            requires
                f == 1 + (4 * p) * u,
                u2 == u + 2 * p * u * u,
        ;
        assert(factor(j) == 1 + pow2(j + 2) * u2);
        let w = p * u;
        let v2 = v + w * (2 * v + 1);
        assert(f * a + a == (2 * p) * (2 * v2 + 1)) by (nonlinear_arith)
            requires
                f == 1 + (4 * p) * u,
                a == p * (2 * v + 1),
                w == p * u,
                v2 == v + w * (2 * v + 1),
        ;
        assert(addend(j) == pow2(j) * (2 * v2 + 1));
        (u2, v2)
    }
}

/// Half a period flips the highest bit of the state
///
/// The generator runs through all of its states.
pub proof fn half_period(s: int)
    requires
        0 <= s < 0x1_0000_0000_0000,
    ensures
        state_after(s, 0x8000_0000_0000) == (s + 0x8000_0000_0000) % 0x1_0000_0000_0000,
{
    lemma2_to64();
    lemma2_to64_rest();
    affine_states(s, 47);
    let (u, v) = affine_residues(47);
    let m = 0x1_0000_0000_0000int;
    let q = 2 * u * s + v;
    assert(factor(47) * s + addend(47) == m * q + (s + 0x8000_0000_0000)) by (nonlinear_arith)
        requires
            factor(47) == 1 + 0x2_0000_0000_0000 * u,
            addend(47) == 0x8000_0000_0000 * (2 * v + 1),
            m == 0x1_0000_0000_0000int,
            q == 2 * u * s + v,
    ;
    vstd::arithmetic::div_mod::lemma_mod_multiples_vanish(q, s + 0x8000_0000_0000, m);
}

/// Within half a period, some roll is kept
proof fn some_roll_kept(s: int, bound: int, tries: nat)
    requires
        0 <= s < 0x1_0000_0000_0000,
        0 < bound < 0x8000_0000,
        forall|i: nat| i < tries ==> !kept(#[trigger] roll(s, i), bound),
    ensures
        tries <= 0x8000_0000_0000,
{
    if tries > 0x8000_0000_0000 {
        let first = state_after(s, 1);
        state_in_range(s, 1);
        half_period(first);
        states_compose(s, 1, 0x8000_0000_0000);
        assert(!kept(roll(s, 0), bound));
        assert(!kept(roll(s, 0x8000_0000_0000), bound));
        let second = state_after(s, 0x8000_0000_0001);
        let low = if first < 0x8000_0000_0000 {
            first
        } else {
            second
        };
        let r = low / 0x2_0000;
        assert(0 <= r < 0x4000_0000);
        assert(r - r % bound + (bound - 1) < 0x8000_0000) by (nonlinear_arith)
            requires
                0 <= r < 0x4000_0000,
                0 < bound < 0x8000_0000,
        {
            if r < bound {
                vstd::arithmetic::div_mod::lemma_small_mod(r as nat, bound as nat);
            } else {
                vstd::arithmetic::div_mod::lemma_mod_bound(r, bound);
            }
        }
    }
}

/// The seed of the generator that decides whether a chunk is a slime chunk
///
/// The coordinate terms overflow in 32 bits before they are widened to 64 bits.
pub open spec fn slime_seed(world_seed: i64, x: i32, z: i32) -> i64 {
    let t1 = wrap32(wrap32(x * x) * 0x4c1906);
    let t2 = wrap32(x * 0x5ac0db);
    let t3 = wrap32(z * z) * 0x4307a7;
    let t4 = wrap32(z * 0x5f24f);
    (wrap64(world_seed + t1 + t2 + t3 + t4) as i64) ^ 0x3ad8025f
}

/// What is left of a number in 32 bits
pub open spec fn wrap32(n: int) -> int {
    bytes::signed32(n % 0x1_0000_0000) as int
}

/// What is left of a number in 64 bits
pub open spec fn wrap64(n: int) -> int {
    bytes::signed64(n % 0x1_0000_0000_0000_0000) as int
}

/// A chunk is a slime chunk
pub open spec fn slime_chunk(world_seed: i64, x: i32, z: i32) -> bool {
    exists|n: nat|
        {
            &&& #[trigger] first_kept(seed_state(slime_seed(world_seed, x, z)), 10, n)
            &&& roll(seed_state(slime_seed(world_seed, x, z)), n) % 10 == 0
        }
}

proof fn wrap64_added(a: i64, b: i64, total: int)
    requires
        a == wrap64(total),
    ensures
        a.wrapping_add(b) == wrap64(total + b),
{
    let m = 0x1_0000_0000_0000_0000int;
    let q = total / m;
    assert(total == m * q + total % m);
    let sum = a.wrapping_add(b);
    let k = if a + b > i64::MAX {
        -1int
    } else if a + b < i64::MIN {
        1
    } else {
        0
    };
    let c = if total % m >= 0x8000_0000_0000_0000 {
        1int
    } else {
        0
    };
    assert(sum == total + b - m * (q + c - k));
    if sum >= 0 {
        assert((total + b) % m == sum);
    } else {
        assert((total + b) % m == sum + m);
    }
}

proof fn first_kept_unique(s: int, bound: int, n: nat, m: nat)
    requires
        first_kept(s, bound, n),
        first_kept(s, bound, m),
    ensures
        n == m,
{
    assert(kept(roll(s, n), bound) && kept(roll(s, m), bound));
}

/// Returns the seed of the generator that decides whether a chunk is a slime chunk
fn slime_chunk_seed(world_seed: i64, chunk_x: i32, chunk_z: i32) -> (r: i64)
    ensures
        r == slime_seed(world_seed, chunk_x, chunk_z),
{
    let t1: i64 = chunk_x.wrapping_mul(chunk_x).wrapping_mul(0x4c1906) as i64;
    let t2: i64 = chunk_x.wrapping_mul(0x5ac0db) as i64;
    let t3: i64 = chunk_z.wrapping_mul(chunk_z) as i64 * 0x4307a7;
    let t4: i64 = chunk_z.wrapping_mul(0x5f24f) as i64;
    let sum: i64 = world_seed.wrapping_add(t1).wrapping_add(t2).wrapping_add(t3).wrapping_add(t4);
    proof {
        let s1 = world_seed.wrapping_add(t1);
        let s2 = s1.wrapping_add(t2);
        let s3 = s2.wrapping_add(t3);
        wrap64_added(world_seed, t1, world_seed as int);
        wrap64_added(s1, t2, world_seed + t1);
        wrap64_added(s2, t3, world_seed + t1 + t2);
        wrap64_added(s3, t4, world_seed + t1 + t2 + t3);
    }
    sum ^ 0x3ad8025f
}

/// Determines whether a chunk is a slime chunk in Java Edition
///
/// Follows Minecraft's slime-chunk seeding exactly, including the 32-bit
/// integer overflow of the coordinate terms before they are widened to 64 bits.
pub fn is_slime_chunk(world_seed: i64, chunk_x: i32, chunk_z: i32) -> (r: bool)
    ensures
        r == slime_chunk(world_seed, chunk_x, chunk_z),
{
    let seed: i64 = slime_chunk_seed(world_seed, chunk_x, chunk_z);
    let mut random = JavaRandom::new(seed);
    let value: i32 = random.next_int(10);
    proof {
        power_of_two_bits(10);
        assert(10u32 & 9u32 == 8) by (bit_vector);
        let s = seed_state(seed);
        let n = choose|n: nat|
            #[trigger] first_kept(s, 10, n) && value == roll(s, n) % 10;
        if slime_chunk(world_seed, chunk_x, chunk_z) {
            let m = choose|m: nat| #[trigger] first_kept(s, 10, m) && roll(s, m) % 10 == 0;
            first_kept_unique(s, 10, n, m);
        }
    }
    value == 0
}

/// The seed of a chunk is computed as in Java: the products of the coordinates wrap in 32 bits,
/// and all but one of them are widened afterwards
pub proof fn slime_seed_wraps(world_seed: i64, x: i32, z: i32)
    ensures
        slime_seed(world_seed, x, z) == (world_seed.wrapping_add(
            x.wrapping_mul(x).wrapping_mul(0x4c1906) as i64,
        ).wrapping_add(x.wrapping_mul(0x5ac0db) as i64).wrapping_add(
            (z.wrapping_mul(z) * 0x4307a7) as i64,
        ).wrapping_add(z.wrapping_mul(0x5f24f) as i64)) ^ 0x3ad8025f,
{
    let t1 = x.wrapping_mul(x).wrapping_mul(0x4c1906) as i64;
    let t2 = x.wrapping_mul(0x5ac0db) as i64;
    let t3 = (z.wrapping_mul(z) * 0x4307a7) as i64;
    let t4 = z.wrapping_mul(0x5f24f) as i64;
    let s1 = world_seed.wrapping_add(t1);
    let s2 = s1.wrapping_add(t2);
    let s3 = s2.wrapping_add(t3);
    wrap64_added(world_seed, t1, world_seed as int);
    wrap64_added(s1, t2, world_seed + t1);
    wrap64_added(s2, t3, world_seed + t1 + t2);
    wrap64_added(s3, t4, world_seed + t1 + t2 + t3);
}

/// Rolls are kept below the greatest multiple of the bound that 31 bits can hold, so that all
/// remainders are equally frequent among them
pub proof fn rolls_kept(roll: int, bound: int)
    requires
        0 <= roll < 0x8000_0000,
        0 < bound < 0x8000_0000,
    ensures
        kept(roll, bound) <==> roll < (0x8000_0000int / bound) * bound,
{
    let q = roll / bound;
    let r = roll % bound;
    let m = 0x8000_0000int / bound;
    let n = 0x8000_0000int % bound;
    vstd::arithmetic::div_mod::lemma_fundamental_div_mod(roll, bound);
    vstd::arithmetic::div_mod::lemma_fundamental_div_mod(0x8000_0000, bound);
    assert(0 <= r < bound && 0 <= n < bound);
    assert(roll - r == bound * q && bound * q == q * bound && bound * m == m * bound)
        by (nonlinear_arith)
        requires
            roll == bound * q + r,
    ;
    if roll < m * bound {
        assert(q + 1 <= m) by (nonlinear_arith)
            requires
                q * bound <= roll,
                roll < m * bound,
                bound > 0,
        ;
        assert(q * bound + bound <= m * bound) by (nonlinear_arith)
            requires
                q + 1 <= m,
                bound > 0,
        ;
    } else {
        assert(q >= m) by (nonlinear_arith)
            requires
                roll >= m * bound,
                roll == q * bound + r,
                r < bound,
                bound > 0,
        ;
        assert(q * bound >= m * bound) by (nonlinear_arith)
            requires
                q >= m,
                bound > 0,
        ;
    }
}

/// Up to 31 bits of a state are read as a number that is not negative
pub proof fn bits_read(s: int, bits: u32)
    requires
        0 <= s < 0x1_0000_0000_0000,
        1 <= bits <= 31,
    ensures
        high_bits(s, bits) == s / pow2((48 - bits) as nat) as int,
        0 <= high_bits(s, bits) < pow2(bits as nat),
        roll(s, 0) == high_bits(next_state(s), 31),
{
    let d = pow2((48 - bits) as nat) as int;
    let e = pow2(bits as nat) as int;
    lemma_pow2_pos((48 - bits) as nat);
    lemma_pow2_adds((48 - bits) as nat, bits as nat);
    lemma2_to64();
    lemma2_to64_rest();
    assert(d * e == 0x1_0000_0000_0000);
    assert(0 <= s / d < e) by (nonlinear_arith)
        requires
            0 <= s,
            s < d * e,
            d > 0,
    ;
    if bits < 31 {
        lemma_pow2_strictly_increases(bits as nat, 31);
    }
    assert(e <= 0x8000_0000);
    reveal_with_fuel(state_after, 2);
}

/// The generator is the linear congruential one with 48 bits, seeded with the low bits of the
/// scrambled seed
pub proof fn generator_steps(s: int, seed: i64, i: nat)
    ensures
        (next_state(s) - (25_214_903_917 * s + 11)) % 0x1_0000_0000_0000 == 0,
        0 <= next_state(s) < 0x1_0000_0000_0000,
        state_after(s, i + 1) == next_state(state_after(s, i)),
        state_after(s, 0) == s,
        seed_state(seed) == ((seed ^ 25_214_903_917) as u64) % 0x1_0000_0000_0000,
{
    let t = 0x5DEECE66D * s + 0xB;
    vstd::arithmetic::div_mod::lemma_fundamental_div_mod(t, 0x1_0000_0000_0000);
    let q = t / 0x1_0000_0000_0000;
    assert(next_state(s) - t == 0x1_0000_0000_0000 * (-q));
    vstd::arithmetic::div_mod::lemma_mod_multiples_basic(-q, 0x1_0000_0000_0000);
    let x = seed ^ 25_214_903_917;
    assert((x & 0xFFFF_FFFF_FFFF) >= 0 && (x & 0xFFFF_FFFF_FFFF) as u64 == (x as u64)
        % 0x1_0000_0000_0000) by (bit_vector);
}

} // verus!
