use vstd::prelude::*;

use crate::error::DecodeError;

verus! {

// ---------------------------------------------------------------------------
// Fixed-width big-endian integers
// ---------------------------------------------------------------------------

pub open spec fn pow256(n: nat) -> nat
    decreases n,
{
    if n == 0 {
        1
    } else {
        256 * pow256((n - 1) as nat)
    }
}

/// The `n` low-order bytes of `v`, most significant first.
pub open spec fn be_bytes(v: nat, n: nat) -> Seq<u8>
    decreases n,
{
    if n == 0 {
        Seq::empty()
    } else {
        be_bytes(v / 256, (n - 1) as nat).push((v % 256) as u8)
    }
}

/// The number that `s` spells in big-endian order.
pub open spec fn be_value(s: Seq<u8>) -> nat
    decreases s.len(),
{
    if s.len() == 0 {
        0
    } else {
        be_value(s.drop_last()) * 256 + s.last() as nat
    }
}

pub proof fn lemma_pow256_positive(n: nat)
    ensures
        pow256(n) > 0,
    decreases n,
{
    if n > 0 {
        lemma_pow256_positive((n - 1) as nat);
    }
}

pub proof fn lemma_be_bytes_len(v: nat, n: nat)
    ensures
        be_bytes(v, n).len() == n,
    decreases n,
{
    if n > 0 {
        lemma_be_bytes_len(v / 256, (n - 1) as nat);
    }
}

pub proof fn lemma_be_value_bound(s: Seq<u8>)
    ensures
        be_value(s) < pow256(s.len()),
    decreases s.len(),
{
    if s.len() > 0 {
        lemma_be_value_bound(s.drop_last());
        let p = pow256((s.len() - 1) as nat);
        assert(be_value(s.drop_last()) + 1 <= p);
        assert((be_value(s.drop_last()) + 1) * 256 <= p * 256) by (nonlinear_arith)
            requires
                be_value(s.drop_last()) + 1 <= p,
        ;
    }
}

/// Reading back `n` written bytes gives the value modulo `256^n`.
pub proof fn lemma_be_value_of_bytes(v: nat, n: nat)
    ensures
        be_value(be_bytes(v, n)) == v % pow256(n),
    decreases n,
{
    lemma_be_bytes_len(v, n);
    if n > 0 {
        let s = be_bytes(v, n);
        let q = v / 256;
        lemma_be_value_of_bytes(q, (n - 1) as nat);
        assert(s.drop_last() =~= be_bytes(q, (n - 1) as nat));
        let p = pow256((n - 1) as nat);
        lemma_pow256_positive((n - 1) as nat);
        // v % (256 * p) == (v / 256) % p * 256 + v % 256
        assert(v % (256 * p) == (q % p) * 256 + v % 256) by (nonlinear_arith)
            requires
                p > 0,
                q == v / 256,
        {
            vstd::arithmetic::div_mod::lemma_breakdown(v as int, 256, p as int);
        }
    }
}

/// Writing back the bytes read gives the same bytes.
pub proof fn lemma_be_bytes_of_value(s: Seq<u8>)
    ensures
        be_bytes(be_value(s), s.len()) == s,
    decreases s.len(),
{
    if s.len() > 0 {
        let init = s.drop_last();
        lemma_be_bytes_of_value(init);
        let v = be_value(s);
        assert(v / 256 == be_value(init));
        assert(v % 256 == s.last());
        assert(be_bytes(v, s.len()) =~= s);
    }
}

// ---------------------------------------------------------------------------
// Variable-length integers: seven bits per byte, least significant group
// first, the high bit set on every byte but the last.
// ---------------------------------------------------------------------------

pub open spec fn pow128(n: nat) -> nat
    decreases n,
{
    if n == 0 {
        1
    } else {
        128 * pow128((n - 1) as nat)
    }
}

/// The shortest variable-length encoding of `v`.
pub open spec fn var_bytes(v: nat) -> Seq<u8>
    decreases v,
{
    if v < 128 {
        seq![v as u8]
    } else {
        seq![(v % 128 + 128) as u8] + var_bytes(v / 128)
    }
}

/// The number that the seven-bit groups of the first `n` bytes of `s` spell.
pub open spec fn var_value(s: Seq<u8>, n: nat) -> nat
    decreases n,
{
    if n == 0 || s.len() == 0 {
        0
    } else {
        (s[0] % 128) as nat + 128 * var_value(s.drop_first(), (n - 1) as nat)
    }
}

/// Where a variable-length integer at the front of `s` ends when it may span
/// at most `max` bytes: its length, or why it cannot be read.
pub open spec fn var_end(s: Seq<u8>, max: nat) -> Result<nat, DecodeError>
    decreases max,
{
    if max == 0 {
        Err(DecodeError::InvalidVarintLength)
    } else if s.len() == 0 {
        Err(DecodeError::UnexpectedEof)
    } else if s[0] < 128 {
        Ok(1)
    } else {
        match var_end(s.drop_first(), (max - 1) as nat) {
            Ok(n) => Ok(n + 1),
            Err(e) => Err(e),
        }
    }
}

/// How many bytes a reader of at most `max` bytes consumes before it stops.
pub open spec fn var_consumed(s: Seq<u8>, max: nat) -> nat {
    match var_end(s, max) {
        Ok(n) => n,
        Err(DecodeError::UnexpectedEof) => s.len(),
        Err(_) => max,
    }
}

pub proof fn lemma_pow128_positive(n: nat)
    ensures
        pow128(n) > 0,
    decreases n,
{
    if n > 0 {
        lemma_pow128_positive((n - 1) as nat);
    }
}

pub proof fn lemma_pow128_monotonic(a: nat, b: nat)
    requires
        a <= b,
    ensures
        pow128(a) <= pow128(b),
    decreases b,
{
    if a < b {
        lemma_pow128_monotonic(a, (b - 1) as nat);
        lemma_pow128_positive((b - 1) as nat);
    }
}

/// Appending one more group adds it at the next power of 128.
pub proof fn lemma_var_value_extend(s: Seq<u8>, i: nat)
    requires
        i < s.len(),
    ensures
        var_value(s, i + 1) == var_value(s, i) + (s[i as int] % 128) as nat * pow128(i),
    decreases i,
{
    let t = s.drop_first();
    if i == 0 {
        assert(var_value(t, 0) == 0);
        assert(pow128(0) == 1);
    } else {
        lemma_var_value_extend(t, (i - 1) as nat);
        assert(t[i - 1] == s[i as int]);
        let a = var_value(t, (i - 1) as nat);
        let g = (s[i as int] % 128) as nat;
        let p = pow128((i - 1) as nat);
        assert(pow128(i) == 128 * p);
        assert(var_value(s, i + 1) == (s[0] % 128) as nat + 128 * var_value(t, i));
        assert(var_value(s, i) == (s[0] % 128) as nat + 128 * a);
        assert(128 * (a + g * p) == 128 * a + g * (128 * p)) by (nonlinear_arith);
    }
}

pub proof fn lemma_var_value_bound(s: Seq<u8>, n: nat)
    ensures
        var_value(s, n) < pow128(n),
    decreases n,
{
    lemma_pow128_positive(n);
    if n > 0 && s.len() > 0 {
        lemma_var_value_bound(s.drop_first(), (n - 1) as nat);
        let a = var_value(s.drop_first(), (n - 1) as nat);
        let p = pow128((n - 1) as nat);
        assert(128 * a + 127 < 128 * p) by (nonlinear_arith)
            requires
                a < p,
        ;
    }
}

/// Only the first `n` bytes matter to `var_value(s, n)`.
pub proof fn lemma_var_value_prefix(s: Seq<u8>, t: Seq<u8>, n: nat)
    requires
        n <= s.len(),
        n <= t.len(),
        s.subrange(0, n as int) == t.subrange(0, n as int),
    ensures
        var_value(s, n) == var_value(t, n),
    decreases n,
{
    if n > 0 {
        assert(s[0] == s.subrange(0, n as int)[0]);
        assert(t[0] == t.subrange(0, n as int)[0]);
        assert(s.drop_first().subrange(0, n - 1) =~= s.subrange(0, n as int).drop_first());
        assert(t.drop_first().subrange(0, n - 1) =~= t.subrange(0, n as int).drop_first());
        lemma_var_value_prefix(s.drop_first(), t.drop_first(), (n - 1) as nat);
    }
}

/// What a reader that has seen `i` continuation bytes concludes at byte `i`.
pub proof fn lemma_var_end_scan(s: Seq<u8>, max: nat, i: nat)
    requires
        i <= max,
        i <= s.len(),
        forall|j: int| 0 <= j < i ==> s[j] >= 128,
    ensures
        i == max ==> var_end(s, max) == Err::<nat, DecodeError>(DecodeError::InvalidVarintLength),
        i < max && i == s.len() ==> var_end(s, max) == Err::<nat, DecodeError>(DecodeError::UnexpectedEof),
        i < max && i < s.len() && s[i as int] < 128 ==> var_end(s, max) == Ok::<nat, DecodeError>(i + 1),
    decreases i,
{
    if i > 0 {
        let t = s.drop_first();
        assert forall|j: int| 0 <= j < i - 1 implies t[j] >= 128 by {
            assert(t[j] == s[j + 1]);
        }
        lemma_var_end_scan(t, (max - 1) as nat, (i - 1) as nat);
        if i < s.len() {
            assert(t[i - 1] == s[i as int]);
        }
    }
}

/// The encoding of `v` is read back as `v`, whatever follows it, and spans no
/// more than `max` bytes when `v < 128^max`.
pub proof fn lemma_var_bytes_roundtrip(v: nat, rest: Seq<u8>, max: nat)
    requires
        1 <= max,
        v < pow128(max),
    ensures
        1 <= var_bytes(v).len() <= max,
        var_end(var_bytes(v) + rest, max) == Ok::<nat, DecodeError>(var_bytes(v).len()),
        var_value(var_bytes(v) + rest, var_bytes(v).len()) == v,
    decreases v,
{
    let s = var_bytes(v) + rest;
    if v < 128 {
        assert(s[0] == v as u8);
        assert(var_value(s.drop_first(), 0) == 0);
    } else {
        let q = v / 128;
        assert(pow128(0) == 1);
        if max <= 1 {
            if max == 1 {
                assert(pow128(1) == 128 * pow128(0));
            }
            assert(false);
        }
        assert(q < pow128((max - 1) as nat)) by (nonlinear_arith)
            requires
                v < pow128(max),
                pow128(max) == 128 * pow128((max - 1) as nat),
                q == v / 128,
        ;
        lemma_var_bytes_roundtrip(q, rest, (max - 1) as nat);
        assert(s.drop_first() =~= var_bytes(q) + rest);
        assert(s[0] == (v % 128 + 128) as u8);
    }
}

/// `var_bytes(v)` spans at most `k` bytes exactly when `v < 128^k`.
pub proof fn lemma_var_bytes_len(v: nat, k: nat)
    requires
        k >= 1,
    ensures
        var_bytes(v).len() <= k <==> v < pow128(k),
    decreases v,
{
    if v >= 128 {
        let q = v / 128;
        if k == 1 {
            assert(pow128(1) == 128 * pow128(0));
            lemma_var_bytes_len(q, 1);
        } else {
            lemma_var_bytes_len(q, (k - 1) as nat);
            assert(q < pow128((k - 1) as nat) <==> v < 128 * pow128((k - 1) as nat)) by (nonlinear_arith)
                requires
                    q == v / 128,
            ;
        }
    } else {
        assert(pow128(1) == 128 * pow128(0));
        lemma_pow128_monotonic(1, k);
    }
}

} // verus!
