use vstd::prelude::*;

verus! {

/// The height at which terrain gets water.
pub const WATER_LEVEL: i32 = 62;

/// An alpine landscape generated from a seed.
#[derive(Clone)]
pub struct Alpine {
    pub seed: u64,
}

/// The 64-bit finaliser of SplitMix64.
pub open spec fn spec_mix(n: u64) -> u64 {
    let a = vstd::wrapping::u64_specs::wrapping_mul(n ^ (n >> 30u64), 0xbf58476d1ce4e5b9);
    let b = vstd::wrapping::u64_specs::wrapping_mul(a ^ (a >> 27u64), 0x94d049bb133111eb);
    b ^ (b >> 31u64)
}

pub fn mix(n: u64) -> (r: u64)
    ensures
        r == spec_mix(n),
{
    let mut n = n;
    n = (n ^ (n >> 30)).wrapping_mul(0xbf58476d1ce4e5b9);
    n = (n ^ (n >> 27)).wrapping_mul(0x94d049bb133111eb);
    n ^ (n >> 31)
}

/// The hash of a column: the seed mixed with both coordinates.
pub open spec fn spec_column_hash(seed: u64, x: i32, z: i32) -> u64 {
    spec_mix(
        seed ^ vstd::wrapping::u64_specs::wrapping_mul(x as u64, 0x9e3779b97f4a7c15)
            ^ vstd::wrapping::u64_specs::wrapping_mul(z as u64, 0xbf58476d1ce4e5b9),
    )
}

impl Alpine {
    pub fn hash(&self, x: i32, z: i32) -> (h: u64)
        ensures
            h == spec_column_hash(self.seed, x, z),
    {
        mix(self.seed ^ (x as u64).wrapping_mul(0x9e3779b97f4a7c15) ^ (z as u64).wrapping_mul(0xbf58476d1ce4e5b9))
    }
}

/// `a * b` modulo 2^64.
pub open spec fn wmul(a: u64, b: u64) -> u64 {
    vstd::wrapping::u64_specs::wrapping_mul(a, b)
}

/// Undoes `y ^ (y >> k)` for the shifts the finaliser uses.
pub open spec fn unshift(y: u64, k: u64) -> u64 {
    y ^ (y >> k) ^ (y >> (2 * k))
}

/// The inverse of the finaliser: each step undone, last first.
pub open spec fn spec_unmix(r: u64) -> u64 {
    let b = unshift(r, 31);
    let a = unshift(wmul(b, 0x319642b2d24d8ec3), 27);
    unshift(wmul(a, 0x96de1b173f119089), 30)
}

proof fn lemma_unshift(x: u64)
    ensures
        unshift(x ^ (x >> 30u64), 30) == x,
        unshift(x ^ (x >> 27u64), 27) == x,
        unshift(x ^ (x >> 31u64), 31) == x,
        unshift(x, 30) ^ (unshift(x, 30) >> 30u64) == x,
        unshift(x, 27) ^ (unshift(x, 27) >> 27u64) == x,
        unshift(x, 31) ^ (unshift(x, 31) >> 31u64) == x,
{
    assert((x ^ (x >> 30u64)) ^ ((x ^ (x >> 30u64)) >> 30u64) ^ ((x ^ (x >> 30u64)) >> 60u64) == x) by (bit_vector);
    assert((x ^ (x >> 27u64)) ^ ((x ^ (x >> 27u64)) >> 27u64) ^ ((x ^ (x >> 27u64)) >> 54u64) == x) by (bit_vector);
    assert((x ^ (x >> 31u64)) ^ ((x ^ (x >> 31u64)) >> 31u64) ^ ((x ^ (x >> 31u64)) >> 62u64) == x) by (bit_vector);
    let u30 = x ^ (x >> 30u64) ^ (x >> 60u64);
    let u27 = x ^ (x >> 27u64) ^ (x >> 54u64);
    let u31 = x ^ (x >> 31u64) ^ (x >> 62u64);
    assert((x ^ (x >> 30u64) ^ (x >> 60u64)) ^ ((x ^ (x >> 30u64) ^ (x >> 60u64)) >> 30u64) == x) by (bit_vector);
    assert((x ^ (x >> 27u64) ^ (x >> 54u64)) ^ ((x ^ (x >> 27u64) ^ (x >> 54u64)) >> 27u64) == x) by (bit_vector);
    assert((x ^ (x >> 31u64) ^ (x >> 62u64)) ^ ((x ^ (x >> 31u64) ^ (x >> 62u64)) >> 31u64) == x) by (bit_vector);
}

/// Multiplying by `c` and then by `i` modulo 2^64 gives `x` back when
/// `c * i` is one more than a multiple `k` of 2^64.
proof fn lemma_wmul_inverse(x: u64, c: u64, i: u64, k: int)
    requires
        c * i == 1 + k * 0x1_0000_0000_0000_0000,
        k >= 0,
    ensures
        wmul(wmul(x, c), i) == x,
{
    let m: int = 0x1_0000_0000_0000_0000;
    vstd::arithmetic::div_mod::lemma_mul_mod_noop_left(x * c, i as int, m);
    vstd::arithmetic::mul::lemma_mul_is_associative(x as int, c as int, i as int);
    assert(x * (c * i) == x + (x * k) * m) by (nonlinear_arith)
        requires
            c * i == 1 + k * m,
    ;
    vstd::arithmetic::div_mod::lemma_mod_multiples_vanish(x * k, x as int, m);
    vstd::arithmetic::div_mod::lemma_small_mod(x as nat, m as nat);
    assert(((x * c) % m) as u64 == (x * c) % m);
}

/// The finaliser `mix` is a bijection of the 64-bit integers: `spec_unmix`
/// undoes it and it undoes `spec_unmix`, so distinct inputs mix to distinct
/// outputs, and zero mixes to zero.
pub proof fn mix_is_a_bijection(a: u64, b: u64)
    ensures
        spec_unmix(spec_mix(a)) == a,
        spec_mix(spec_unmix(a)) == a,
        spec_mix(a) == spec_mix(b) ==> a == b,
        spec_mix(0) == 0,
{
    lemma_mix_undone(a);
    lemma_mix_undone(b);
    lemma_unmix_undone(a);
    let z: u64 = 0;
    assert(z ^ (z >> 30u64) == 0 && z ^ (z >> 27u64) == 0 && z ^ (z >> 31u64) == 0) by (bit_vector)
        requires
            z == 0,
    ;
    assert(wmul(0, 0xbf58476d1ce4e5b9) == 0 && wmul(0, 0x94d049bb133111eb) == 0);
}

proof fn lemma_mix_undone(n: u64)
    ensures
        spec_unmix(spec_mix(n)) == n,
{
    let s1 = n ^ (n >> 30u64);
    let a = wmul(s1, 0xbf58476d1ce4e5b9);
    let s2 = a ^ (a >> 27u64);
    let b = wmul(s2, 0x94d049bb133111eb);
    lemma_unshift(b);
    lemma_wmul_inverse(s2, 0x94d049bb133111eb, 0x319642b2d24d8ec3, 2077064247507883091);
    lemma_unshift(a);
    lemma_wmul_inverse(s1, 0xbf58476d1ce4e5b9, 0x96de1b173f119089, 8125545580553827436);
    lemma_unshift(n);
}

proof fn lemma_unmix_undone(r: u64)
    ensures
        spec_mix(spec_unmix(r)) == r,
{
    let b = unshift(r, 31);
    let t = wmul(b, 0x319642b2d24d8ec3);
    let a = unshift(t, 27);
    let u = wmul(a, 0x96de1b173f119089);
    let n = unshift(u, 30);
    assert(spec_unmix(r) == n);
    lemma_unshift(u);
    assert(n ^ (n >> 30u64) == u);
    lemma_wmul_inverse(a, 0x96de1b173f119089, 0xbf58476d1ce4e5b9, 8125545580553827436);
    assert(wmul(u, 0xbf58476d1ce4e5b9) == a);
    lemma_unshift(t);
    assert(a ^ (a >> 27u64) == t);
    lemma_wmul_inverse(b, 0x319642b2d24d8ec3, 0x94d049bb133111eb, 2077064247507883091);
    assert(wmul(t, 0x94d049bb133111eb) == b);
    lemma_unshift(r);
    assert(b ^ (b >> 31u64) == r);
    assert(spec_mix(n) == b ^ (b >> 31u64));
}

/// Every bit of the seed matters: at any column, two landscapes with
/// different seeds hash differently, and equal seeds hash equally.
pub proof fn distinct_seeds_give_distinct_hashes(s1: u64, s2: u64, x: i32, z: i32)
    ensures
        s1 != s2 ==> spec_column_hash(s1, x, z) != spec_column_hash(s2, x, z),
{
    let t = vstd::wrapping::u64_specs::wrapping_mul(x as u64, 0x9e3779b97f4a7c15)
        ^ vstd::wrapping::u64_specs::wrapping_mul(z as u64, 0xbf58476d1ce4e5b9);
    let w1 = vstd::wrapping::u64_specs::wrapping_mul(x as u64, 0x9e3779b97f4a7c15);
    let w2 = vstd::wrapping::u64_specs::wrapping_mul(z as u64, 0xbf58476d1ce4e5b9);
    assert(s1 != s2 ==> (s1 ^ w1 ^ w2) != (s2 ^ w1 ^ w2)) by (bit_vector);
    mix_is_a_bijection(s1 ^ w1 ^ w2, s2 ^ w1 ^ w2);
}

} // verus!
