use vstd::prelude::*;

use crate::decoder::{lemma_advance_twice, lemma_advance_zero, Decode, DecodeState, Decoder, Encode};
use crate::error::DecodeError;
use crate::wire::{
    lemma_var_bytes_len, lemma_var_bytes_roundtrip, lemma_pow128_positive, lemma_var_end_scan, lemma_var_value_bound, lemma_var_value_extend,
    pow128, var_bytes, var_consumed, var_end, var_value,
};

verus! {

/// A 32-bit integer written in at most five seven-bit groups.
#[derive(Debug, Clone, Copy, PartialEq, Eq)]
pub struct VarI32(pub i32);

/// A 64-bit integer written in at most ten seven-bit groups.
#[derive(Debug, Clone, Copy, PartialEq, Eq)]
pub struct VarI64(pub i64);

/// What a variable-length 32-bit integer at the front of `s` reads as.
pub open spec fn spec_var_int(s: Seq<u8>) -> Result<i32, DecodeError> {
    match var_end(s, 5) {
        Ok(n) => if var_value(s, n) < 0x1_0000_0000 {
            Ok((var_value(s, n) as u32) as i32)
        } else {
            Err(DecodeError::InvalidVarintLength)
        },
        Err(e) => Err(e),
    }
}

/// What a variable-length 64-bit integer at the front of `s` reads as: the
/// groups are kept modulo 2^64.
pub open spec fn spec_var_long(s: Seq<u8>) -> Result<i64, DecodeError> {
    match var_end(s, 10) {
        Ok(n) => Ok(((var_value(s, n) % 0x1_0000_0000_0000_0000) as u64) as i64),
        Err(e) => Err(e),
    }
}

/// Appends the variable-length encoding of `v`.
pub fn write_var(v: u64, buf: &mut Vec<u8>)
    ensures
        final(buf)@ == old(buf)@ + var_bytes(v as nat),
{
    let mut value = v;
    loop
        invariant_except_break
            buf@ + var_bytes(value as nat) == old(buf)@ + var_bytes(v as nat),
        ensures
            buf@ == old(buf)@ + var_bytes(v as nat),
        decreases value,
    {
        let low = value % 128;
        let high = value / 128;
        if high == 0 {
            buf.push(low as u8);
            assert(var_bytes(value as nat) == seq![value as u8]);
            assert(buf@ =~= old(buf)@ + var_bytes(v as nat));
            break;
        }
        let ghost before = buf@;
        buf.push((low + 128) as u8);
        assert(var_bytes(value as nat) == seq![(low + 128) as u8] + var_bytes(high as nat));
        assert(before + var_bytes(value as nat) =~= buf@ + var_bytes(high as nat));
        value = high;
    }
}

proof fn lemma_pow128_values()
    ensures
        pow128(0) == 1,
        pow128(4) == 0x1000_0000,
        pow128(5) == 0x8_0000_0000,
        pow128(9) == 0x8000_0000_0000_0000,
        pow128(10) == 0x40_0000_0000_0000_0000,
{
    assert(pow128(0) == 1);
    assert(pow128(1) == 0x80);
    assert(pow128(2) == 0x4000);
    assert(pow128(3) == 0x20_0000);
    assert(pow128(4) == 0x1000_0000);
    assert(pow128(5) == 0x8_0000_0000);
    assert(pow128(6) == 0x400_0000_0000);
    assert(pow128(7) == 0x2_0000_0000_0000);
    assert(pow128(8) == 0x100_0000_0000_0000);
    assert(pow128(9) == 0x8000_0000_0000_0000);
    assert(pow128(10) == 0x40_0000_0000_0000_0000);
}

impl Encode for VarI32 {
    open spec fn obeys_encode_spec() -> bool {
        true
    }

    open spec fn spec_encode(&self) -> Seq<u8> {
        var_bytes((self.0 as u32) as nat)
    }

    fn encode(&self, buf: &mut Vec<u8>) {
        write_var((self.0 as u32) as u64, buf);
    }
}

impl Decode for VarI32 {
    open spec fn decodes(before: DecodeState, result: Result<VarI32, DecodeError>, after: DecodeState) -> bool {
        &&& after == before.advance(var_consumed(before.rest, 5) as int)
        &&& result == match spec_var_int(before.rest) {
            Ok(v) => Ok(VarI32(v)),
            Err(e) => Err::<VarI32, DecodeError>(e),
        }
    }

    fn decode_with(decoder: &mut Decoder<'_>) -> (res: Result<VarI32, DecodeError>) {
        let ghost start = decoder@;
        let ghost s = start.rest;
        let mut value: u64 = 0;
        let mut scale: u64 = 1;
        let mut i: usize = 0;
        proof {
            lemma_pow128_values();
            lemma_advance_zero(start);
        }
        while i < 5
            invariant
                i <= 5,
                i <= s.len(),
                decoder@ == start.advance(i as int),
                s == start.rest,
                start == old(decoder)@,
                forall|j: int| 0 <= j < i ==> s[j] >= 128,
                value == var_value(s, i as nat),
                i < 5 ==> scale == pow128(i as nat),
                pow128(4) == 0x1000_0000,
                pow128(5) == 0x8_0000_0000,
            decreases 5 - i,
        {
            proof {
                lemma_var_end_scan(s, 5, i as nat);
            }
            let bytes = match decoder.take(1) {
                Ok(b) => b,
                Err(e) => {
                    assert(s.len() == i);
                    assert(e == DecodeError::UnexpectedEof);
                    assert(var_end(s, 5) == Err::<nat, DecodeError>(DecodeError::UnexpectedEof));
                    assert(var_consumed(s, 5) == i);
                    assert(spec_var_int(s) == Err::<i32, DecodeError>(DecodeError::UnexpectedEof));
                    assert(<VarI32 as Decode>::decodes(old(decoder)@, Err(e), decoder@));
                    return Err(e);
                },
            };
            let byte = bytes[0];
            assert(byte == s[i as int]);
            proof {
                lemma_advance_twice(start, i as int, 1);
            }
            let group = (byte % 128) as u64;
            proof {
                lemma_var_value_extend(s, i as nat);
                lemma_var_value_bound(s, i as nat);
                lemma_pow128_monotonic_small(i as nat);
            }
            assert(group * scale <= 127 * 0x1000_0000) by (nonlinear_arith)
                requires
                    group < 128,
                    scale <= 0x1000_0000,
            ;
            value = value + group * scale;
            if byte < 128 {
                proof {
                    lemma_var_end_scan(s, 5, i as nat);
                }
                assert(var_consumed(s, 5) == i + 1);
                if value >= 0x1_0000_0000 {
                    assert(<VarI32 as Decode>::decodes(old(decoder)@, Err(DecodeError::InvalidVarintLength), decoder@));
                    return Err(DecodeError::InvalidVarintLength);
                }
                assert(<VarI32 as Decode>::decodes(old(decoder)@, Ok(VarI32((value as u32) as i32)), decoder@));
                return Ok(VarI32((value as u32) as i32));
            }
            i = i + 1;
            if i < 5 {
                scale = scale * 128;
            }
        }
        proof {
            lemma_var_end_scan(s, 5, 5);
        }
        assert(<VarI32 as Decode>::decodes(old(decoder)@, Err(DecodeError::InvalidVarintLength), decoder@));
        Err(DecodeError::InvalidVarintLength)
    }
}

proof fn lemma_pow128_monotonic_small(i: nat)
    requires
        i <= 4,
    ensures
        pow128(i) <= 0x1000_0000,
        pow128(i + 1) == 128 * pow128(i),
{
    lemma_pow128_values();
    assert(pow128(1) == 0x80);
    assert(pow128(2) == 0x4000);
    assert(pow128(3) == 0x20_0000);
}

impl Encode for VarI64 {
    open spec fn obeys_encode_spec() -> bool {
        true
    }

    open spec fn spec_encode(&self) -> Seq<u8> {
        var_bytes((self.0 as u64) as nat)
    }

    fn encode(&self, buf: &mut Vec<u8>) {
        write_var(self.0 as u64, buf);
    }
}

/// One more group, accumulated modulo 2^64, is the next prefix modulo 2^64.
proof fn lemma_wrapping_step(a: nat, p: nat, g: nat)
    ensures
        ((a % 0x1_0000_0000_0000_0000) + (g * (p % 0x1_0000_0000_0000_0000))
            % 0x1_0000_0000_0000_0000) % 0x1_0000_0000_0000_0000 == (a + g * p)
            % 0x1_0000_0000_0000_0000,
{
    let m: int = 0x1_0000_0000_0000_0000;
    vstd::arithmetic::div_mod::lemma_mul_mod_noop_right(g as int, p as int, m);
    vstd::arithmetic::div_mod::lemma_add_mod_noop(a as int, (g * p) as int, m);
}

impl Decode for VarI64 {
    open spec fn decodes(before: DecodeState, result: Result<VarI64, DecodeError>, after: DecodeState) -> bool {
        &&& after == before.advance(var_consumed(before.rest, 10) as int)
        &&& result == match spec_var_long(before.rest) {
            Ok(v) => Ok(VarI64(v)),
            Err(e) => Err::<VarI64, DecodeError>(e),
        }
    }

    fn decode_with(decoder: &mut Decoder<'_>) -> (res: Result<VarI64, DecodeError>) {
        let ghost start = decoder@;
        let ghost s = start.rest;
        let mut value: u64 = 0;
        let mut scale: u64 = 1;
        let mut i: usize = 0;
        proof {
            lemma_pow128_values();
            lemma_advance_zero(start);
        }
        while i < 10
            invariant
                i <= 10,
                i <= s.len(),
                decoder@ == start.advance(i as int),
                s == start.rest,
                start == old(decoder)@,
                forall|j: int| 0 <= j < i ==> s[j] >= 128,
                value == var_value(s, i as nat) % 0x1_0000_0000_0000_0000,
                scale == pow128(i as nat) % 0x1_0000_0000_0000_0000,
            decreases 10 - i,
        {
            proof {
                lemma_var_end_scan(s, 10, i as nat);
            }
            let bytes = match decoder.take(1) {
                Ok(b) => b,
                Err(e) => {
                    assert(s.len() == i);
                    return Err(e);
                },
            };
            let byte = bytes[0];
            assert(byte == s[i as int]);
            proof {
                lemma_advance_twice(start, i as int, 1);
                lemma_var_value_extend(s, i as nat);
                lemma_wrapping_step(var_value(s, i as nat), pow128(i as nat), (byte % 128) as nat);
            }
            let group = (byte % 128) as u64;
            value = value.wrapping_add(group.wrapping_mul(scale));
            if byte < 128 {
                return Ok(VarI64(value as i64));
            }
            proof {
                vstd::arithmetic::div_mod::lemma_mul_mod_noop_right(
                    128,
                    pow128(i as nat) as int,
                    0x1_0000_0000_0000_0000,
                );
                assert(pow128(i as nat + 1) == 128 * pow128(i as nat));
            }
            scale = scale.wrapping_mul(128);
            i = i + 1;
        }
        proof {
            lemma_var_end_scan(s, 10, 10);
        }
        Err(DecodeError::InvalidVarintLength)
    }
}

/// Decoding what `VarI32::encode` wrote gives the same value back, whatever
/// follows it, after reading exactly the bytes written, which are at most five.
pub proof fn var_i32_roundtrip(v: i32, tail: Seq<u8>, before: DecodeState, result: Result<VarI32, DecodeError>, after: DecodeState)
    requires
        before.rest == VarI32(v).spec_encode() + tail,
        VarI32::decodes(before, result, after),
    ensures
        result == Ok::<VarI32, DecodeError>(VarI32(v)),
        after.rest == tail,
        after == before.advance(VarI32(v).spec_encode().len() as int),
        1 <= VarI32(v).spec_encode().len() <= 5,
{
    let u = (v as u32) as nat;
    lemma_pow128_values();
    lemma_var_bytes_roundtrip(u, tail, 5);
    let n = var_bytes(u).len();
    assert(((v as u32) as u32) as i32 == v) by (bit_vector);
    assert(before.advance(n as int).rest =~= tail);
}

/// Decoding what `VarI64::encode` wrote gives the same value back, whatever
/// follows it, after reading exactly the bytes written, which are at most ten.
pub proof fn var_i64_roundtrip(v: i64, tail: Seq<u8>, before: DecodeState, result: Result<VarI64, DecodeError>, after: DecodeState)
    requires
        before.rest == VarI64(v).spec_encode() + tail,
        VarI64::decodes(before, result, after),
    ensures
        result == Ok::<VarI64, DecodeError>(VarI64(v)),
        after.rest == tail,
        after == before.advance(VarI64(v).spec_encode().len() as int),
        1 <= VarI64(v).spec_encode().len() <= 10,
{
    let u = (v as u64) as nat;
    lemma_pow128_values();
    lemma_var_bytes_roundtrip(u, tail, 10);
    let n = var_bytes(u).len();
    assert(((v as u64) as u64) as i64 == v) by (bit_vector);
    assert(before.advance(n as int).rest =~= tail);
}

/// The encoding of a 32-bit value spans at most `k` bytes exactly when the
/// value, read as unsigned, is below `128^k`; negative values take five.
pub proof fn var_i32_len(v: i32, k: nat)
    requires
        k >= 1,
    ensures
        VarI32(v).spec_encode().len() <= k <==> ((v as u32) as nat) < pow128(k),
        v < 0 ==> VarI32(v).spec_encode().len() == 5,
{
    lemma_var_bytes_len((v as u32) as nat, k);
    if v < 0 {
        lemma_pow128_values();
        assert((v as u32) >= 0x8000_0000) by (bit_vector)
            requires
                v < 0,
        ;
        assert(pow128(4) == 0x1000_0000);
        lemma_var_bytes_len((v as u32) as nat, 4);
        let u = (v as u32) as nat;
        lemma_var_bytes_roundtrip(u, Seq::empty(), 5);
    }
}

/// The encoding of a 64-bit value spans at most `k` bytes exactly when the
/// value, read as unsigned, is below `128^k`; negative values take ten.
pub proof fn var_i64_len(v: i64, k: nat)
    requires
        k >= 1,
    ensures
        VarI64(v).spec_encode().len() <= k <==> ((v as u64) as nat) < pow128(k),
        v < 0 ==> VarI64(v).spec_encode().len() == 10,
{
    lemma_var_bytes_len((v as u64) as nat, k);
    if v < 0 {
        lemma_pow128_values();
        assert((v as u64) >= 0x8000_0000_0000_0000) by (bit_vector)
            requires
                v < 0,
        ;
        lemma_var_bytes_len((v as u64) as nat, 9);
        let u = (v as u64) as nat;
        lemma_var_bytes_roundtrip(u, Seq::empty(), 10);
    }
}

} // verus!
