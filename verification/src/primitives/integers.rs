use vstd::prelude::*;

use crate::decoder::{spec_take, Decode, DecodeState, Decoder, Encode};
use crate::error::DecodeError;
use crate::wire::{
    be_bytes, be_value, lemma_be_bytes_len, lemma_be_bytes_of_value, lemma_be_value_bound,
    lemma_be_value_of_bytes, pow256,
};

verus! {

/// Outcome of reading an `n`-byte big-endian number.
pub open spec fn spec_decode_be(s: DecodeState, n: nat) -> (Result<nat, DecodeError>, DecodeState) {
    let (r, after) = spec_take(s, n as int);
    (
        match r {
            Ok(bytes) => Ok(be_value(bytes)),
            Err(e) => Err(e),
        },
        after,
    )
}

/// Holds when `result`/`after` is what reading an `n`-byte big-endian
/// number from `before` gives, the number being passed through `convert`.
pub open spec fn be_decodes<T>(
    before: DecodeState,
    n: nat,
    convert: spec_fn(nat) -> T,
    result: Result<T, DecodeError>,
    after: DecodeState,
) -> bool {
    let (r, s) = spec_decode_be(before, n);
    &&& after == s
    &&& result == match r {
        Ok(v) => Ok(convert(v)),
        Err(e) => Err::<T, DecodeError>(e),
    }
}

pub(crate) proof fn lemma_pow256_values()
    ensures
        pow256(1) == 0x100,
        pow256(2) == 0x1_0000,
        pow256(4) == 0x1_0000_0000,
        pow256(8) == 0x1_0000_0000_0000_0000,
{
    assert(pow256(0) == 1);
    assert(pow256(1) == 0x100);
    assert(pow256(2) == 0x1_0000);
    assert(pow256(3) == 0x100_0000);
    assert(pow256(4) == 0x1_0000_0000);
    assert(pow256(5) == 0x100_0000_0000);
    assert(pow256(6) == 0x1_0000_0000_0000);
    assert(pow256(7) == 0x100_0000_0000_0000);
    assert(pow256(8) == 0x1_0000_0000_0000_0000);
}

proof fn lemma_pow256_le_64(n: nat)
    requires
        n <= 8,
    ensures
        pow256(n) <= 0x1_0000_0000_0000_0000,
{
    lemma_pow256_values();
    assert(pow256(3) == 0x100_0000);
    assert(pow256(5) == 0x100_0000_0000);
    assert(pow256(6) == 0x1_0000_0000_0000);
    assert(pow256(7) == 0x100_0000_0000_0000);
}

/// Appends the `n` low-order bytes of `v`, most significant first.
pub(crate) fn write_be(v: u64, n: usize, buf: &mut Vec<u8>)
    ensures
        final(buf)@ == old(buf)@ + be_bytes(v as nat, n as nat),
    decreases n,
{
    if n > 0 {
        write_be(v / 256, n - 1, buf);
        let ghost mid = buf@;
        buf.push((v % 256) as u8);
        assert(buf@ =~= old(buf)@ + be_bytes(v as nat, n as nat));
    }
}

/// Reads the big-endian number spelled by `bytes`.
pub(crate) fn read_be(bytes: &[u8]) -> (v: u64)
    requires
        bytes@.len() <= 8,
    ensures
        v == be_value(bytes@),
{
    let mut v: u64 = 0;
    let mut i: usize = 0;
    while i < bytes.len()
        invariant
            i <= bytes@.len() <= 8,
            v == be_value(bytes@.subrange(0, i as int)),
        decreases bytes@.len() - i,
    {
        let ghost prefix = bytes@.subrange(0, i as int + 1);
        assert(prefix.drop_last() =~= bytes@.subrange(0, i as int));
        proof {
            lemma_be_value_bound(prefix);
            lemma_pow256_le_64(prefix.len());
        }
        v = v * 256 + bytes[i] as u64;
        i = i + 1;
    }
    assert(bytes@.subrange(0, i as int) =~= bytes@);
    v
}

/// Reads an `n`-byte big-endian number from the decoder.
fn decode_be(decoder: &mut Decoder<'_>, n: usize) -> (res: Result<u64, DecodeError>)
    requires
        n <= 8,
    ensures
        ({
            let (r, s) = spec_decode_be(old(decoder)@, n as nat);
            &&& final(decoder)@ == s
            &&& match res {
                Ok(v) => r == Ok::<nat, DecodeError>(v as nat),
                Err(e) => r == Err::<nat, DecodeError>(e),
            }
        }),
{
    let bytes = decoder.take(n)?;
    Ok(read_be(bytes))
}

impl Encode for u8 {
    open spec fn obeys_encode_spec() -> bool {
        true
    }

    open spec fn spec_encode(&self) -> Seq<u8> {
        seq![*self]
    }

    fn encode(&self, buf: &mut Vec<u8>) {
        buf.push(*self);
        assert(buf@ =~= old(buf)@ + seq![*self]);
    }
}

impl Decode for u8 {
    open spec fn decodes(before: DecodeState, result: Result<u8, DecodeError>, after: DecodeState) -> bool {
        be_decodes(before, 1, |v: nat| v as u8, result, after)
    }

    fn decode_with(decoder: &mut Decoder<'_>) -> (res: Result<u8, DecodeError>) {
        let v = decode_be(decoder, 1)?;
        proof {
            lemma_pow256_values();
            lemma_be_value_bound(old(decoder)@.rest.subrange(0, 1));
        }
        Ok(v as u8)
    }
}

impl Encode for u16 {
    open spec fn obeys_encode_spec() -> bool {
        true
    }

    open spec fn spec_encode(&self) -> Seq<u8> {
        be_bytes(*self as nat, 2)
    }

    fn encode(&self, buf: &mut Vec<u8>) {
        write_be(*self as u64, 2, buf);
    }
}

impl Decode for u16 {
    open spec fn decodes(before: DecodeState, result: Result<u16, DecodeError>, after: DecodeState) -> bool {
        be_decodes(before, 2, |v: nat| v as u16, result, after)
    }

    fn decode_with(decoder: &mut Decoder<'_>) -> (res: Result<u16, DecodeError>) {
        let v = decode_be(decoder, 2)?;
        proof {
            lemma_pow256_values();
            lemma_be_value_bound(old(decoder)@.rest.subrange(0, 2));
        }
        Ok(v as u16)
    }
}

impl Encode for u32 {
    open spec fn obeys_encode_spec() -> bool {
        true
    }

    open spec fn spec_encode(&self) -> Seq<u8> {
        be_bytes(*self as nat, 4)
    }

    fn encode(&self, buf: &mut Vec<u8>) {
        write_be(*self as u64, 4, buf);
    }
}

impl Decode for u32 {
    open spec fn decodes(before: DecodeState, result: Result<u32, DecodeError>, after: DecodeState) -> bool {
        be_decodes(before, 4, |v: nat| v as u32, result, after)
    }

    fn decode_with(decoder: &mut Decoder<'_>) -> (res: Result<u32, DecodeError>) {
        let v = decode_be(decoder, 4)?;
        proof {
            lemma_pow256_values();
            lemma_be_value_bound(old(decoder)@.rest.subrange(0, 4));
        }
        Ok(v as u32)
    }
}

impl Encode for u64 {
    open spec fn obeys_encode_spec() -> bool {
        true
    }

    open spec fn spec_encode(&self) -> Seq<u8> {
        be_bytes(*self as nat, 8)
    }

    fn encode(&self, buf: &mut Vec<u8>) {
        write_be(*self, 8, buf);
    }
}

impl Decode for u64 {
    open spec fn decodes(before: DecodeState, result: Result<u64, DecodeError>, after: DecodeState) -> bool {
        be_decodes(before, 8, |v: nat| v as u64, result, after)
    }

    fn decode_with(decoder: &mut Decoder<'_>) -> (res: Result<u64, DecodeError>) {
        let v = decode_be(decoder, 8)?;
        Ok(v)
    }
}

impl Encode for i32 {
    open spec fn obeys_encode_spec() -> bool {
        true
    }

    open spec fn spec_encode(&self) -> Seq<u8> {
        be_bytes((*self as u32) as nat, 4)
    }

    fn encode(&self, buf: &mut Vec<u8>) {
        write_be((*self as u32) as u64, 4, buf);
    }
}

impl Decode for i32 {
    open spec fn decodes(before: DecodeState, result: Result<i32, DecodeError>, after: DecodeState) -> bool {
        be_decodes(before, 4, |v: nat| (v as u32) as i32, result, after)
    }

    fn decode_with(decoder: &mut Decoder<'_>) -> (res: Result<i32, DecodeError>) {
        let v = decode_be(decoder, 4)?;
        proof {
            lemma_pow256_values();
            lemma_be_value_bound(old(decoder)@.rest.subrange(0, 4));
        }
        Ok((v as u32) as i32)
    }
}

impl Encode for i64 {
    open spec fn obeys_encode_spec() -> bool {
        true
    }

    open spec fn spec_encode(&self) -> Seq<u8> {
        be_bytes((*self as u64) as nat, 8)
    }

    fn encode(&self, buf: &mut Vec<u8>) {
        write_be(*self as u64, 8, buf);
    }
}

impl Decode for i64 {
    open spec fn decodes(before: DecodeState, result: Result<i64, DecodeError>, after: DecodeState) -> bool {
        be_decodes(before, 8, |v: nat| (v as u64) as i64, result, after)
    }

    fn decode_with(decoder: &mut Decoder<'_>) -> (res: Result<i64, DecodeError>) {
        let v = decode_be(decoder, 8)?;
        Ok(v as i64)
    }
}

/// A number written in `n` bytes and read back in `n` bytes is the number
/// modulo `256^n`, and exactly the bytes written are consumed.
pub proof fn lemma_be_decode_encoded(v: nat, n: nat, before: DecodeState, tail: Seq<u8>)
    requires
        before.rest == be_bytes(v, n) + tail,
    ensures
        spec_decode_be(before, n) == (Ok::<nat, DecodeError>(v % pow256(n)), before.advance(n as int)),
        before.advance(n as int).rest == tail,
{
    lemma_be_bytes_len(v, n);
    lemma_be_value_of_bytes(v, n);
    assert(before.rest.subrange(0, n as int) =~= be_bytes(v, n));
    assert(before.advance(n as int).rest =~= tail);
}

/// Decoding what `u8::encode` wrote gives the same value back.
pub proof fn u8_roundtrip(v: u8, tail: Seq<u8>, before: DecodeState, result: Result<u8, DecodeError>, after: DecodeState)
    requires
        before.rest == v.spec_encode() + tail,
        u8::decodes(before, result, after),
    ensures
        result == Ok::<u8, DecodeError>(v),
        after == before.advance(1),
        after.rest == tail,
{
    lemma_pow256_values();
    assert(be_bytes(v as nat, 1) =~= seq![v]) by {
        assert(be_bytes(v as nat / 256, 0) == Seq::<u8>::empty());
    }
    lemma_be_decode_encoded(v as nat, 1, before, tail);
}

/// Decoding what `u16::encode` wrote gives the same value back.
pub proof fn u16_roundtrip(v: u16, tail: Seq<u8>, before: DecodeState, result: Result<u16, DecodeError>, after: DecodeState)
    requires
        before.rest == v.spec_encode() + tail,
        u16::decodes(before, result, after),
    ensures
        result == Ok::<u16, DecodeError>(v),
        after == before.advance(2),
        after.rest == tail,
{
    lemma_pow256_values();
    lemma_be_decode_encoded(v as nat, 2, before, tail);
}

/// Decoding what `u32::encode` wrote gives the same value back.
pub proof fn u32_roundtrip(v: u32, tail: Seq<u8>, before: DecodeState, result: Result<u32, DecodeError>, after: DecodeState)
    requires
        before.rest == v.spec_encode() + tail,
        u32::decodes(before, result, after),
    ensures
        result == Ok::<u32, DecodeError>(v),
        after == before.advance(4),
        after.rest == tail,
{
    lemma_pow256_values();
    lemma_be_decode_encoded(v as nat, 4, before, tail);
}

/// Decoding what `u64::encode` wrote gives the same value back.
pub proof fn u64_roundtrip(v: u64, tail: Seq<u8>, before: DecodeState, result: Result<u64, DecodeError>, after: DecodeState)
    requires
        before.rest == v.spec_encode() + tail,
        u64::decodes(before, result, after),
    ensures
        result == Ok::<u64, DecodeError>(v),
        after == before.advance(8),
        after.rest == tail,
{
    lemma_pow256_values();
    lemma_be_decode_encoded(v as nat, 8, before, tail);
}

/// Decoding what `i32::encode` wrote gives the same value back.
pub proof fn i32_roundtrip(v: i32, tail: Seq<u8>, before: DecodeState, result: Result<i32, DecodeError>, after: DecodeState)
    requires
        before.rest == v.spec_encode() + tail,
        i32::decodes(before, result, after),
    ensures
        result == Ok::<i32, DecodeError>(v),
        after == before.advance(4),
        after.rest == tail,
{
    lemma_pow256_values();
    lemma_be_decode_encoded((v as u32) as nat, 4, before, tail);
    assert(((v as u32) as u32) as i32 == v) by (bit_vector);
}

/// Decoding what `i64::encode` wrote gives the same value back.
pub proof fn i64_roundtrip(v: i64, tail: Seq<u8>, before: DecodeState, result: Result<i64, DecodeError>, after: DecodeState)
    requires
        before.rest == v.spec_encode() + tail,
        i64::decodes(before, result, after),
    ensures
        result == Ok::<i64, DecodeError>(v),
        after == before.advance(8),
        after.rest == tail,
{
    lemma_pow256_values();
    lemma_be_decode_encoded((v as u64) as nat, 8, before, tail);
    assert(((v as u64) as u64) as i64 == v) by (bit_vector);
}

} // verus!
