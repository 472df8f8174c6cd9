use vstd::prelude::*;

use crate::decoder::{spec_take, Decode, DecodeState, Decoder, Encode};
use crate::error::DecodeError;
use crate::primitives::integers::{lemma_pow256_values, read_be, write_be};
use crate::primitives::varint::{spec_var_int, var_i32_roundtrip, VarI32};
use crate::wire::{
    be_bytes, be_value, lemma_be_bytes_len, lemma_be_value_bound, lemma_be_value_of_bytes,
    var_consumed,
};

verus! {

/// The largest quantised component: components run from 0 for -1 to this
/// value for +1.
pub const MAX_QUANTIZED: u64 = 32766;

/// A low-precision vector as it travels: the zero vector, or three 15-bit
/// quantised components in units of `scale`, a whole number. Turning the
/// floating-point components into these and back is left to the caller.
#[derive(Clone, Copy, Debug, PartialEq, Eq, Structural)]
pub enum QuantizedVec3 {
    Zero,
    Scaled { x: u64, y: u64, z: u64, scale: u64 },
}

/// The scale does not fit in the two low bits of the first byte and goes on
/// in a variable-length integer.
pub open spec fn partial_scale(scale: u64) -> bool {
    scale & 3 != scale
}

/// The three low bits of the packed word: the scale itself, or its two low
/// bits and the continuation flag.
pub open spec fn lp_markers(scale: u64) -> u64 {
    if partial_scale(scale) {
        (scale & 3) | 4
    } else {
        scale
    }
}

/// The packed word: markers, then the components at bits 3, 18 and 33.
pub open spec fn lp_word(x: u64, y: u64, z: u64, scale: u64) -> u64 {
    lp_markers(scale) | (x << 3u64) | (y << 18u64) | (z << 33u64)
}

/// A quantised component read from the packed word: fifteen bits, capped at
/// the largest quantised value.
pub open spec fn lp_component(bits: u64) -> u64 {
    let v = bits & 32767;
    if v < MAX_QUANTIZED {
        v
    } else {
        MAX_QUANTIZED
    }
}

/// The vector a packed word and a scale stand for.
pub open spec fn lp_unpacked(word: u64, scale: u64) -> QuantizedVec3 {
    QuantizedVec3::Scaled {
        x: lp_component(word >> 3u64),
        y: lp_component(word >> 18u64),
        z: lp_component(word >> 33u64),
        scale,
    }
}

/// The wire bytes of a scaled vector: the low two bytes of the packed word,
/// the next four most significant first, then the rest of a partial scale.
pub open spec fn lp_bytes(x: u64, y: u64, z: u64, scale: u64) -> Seq<u8> {
    let w = lp_word(x, y, z, scale);
    seq![(w & 0xff) as u8, ((w >> 8u64) & 0xff) as u8] + be_bytes(((w >> 16u64) as u32) as nat, 4)
        + if partial_scale(scale) {
        VarI32((scale >> 2u64) as i32).spec_encode()
    } else {
        Seq::empty()
    }
}

impl Encode for QuantizedVec3 {
    open spec fn obeys_encode_spec() -> bool {
        true
    }

    /// A single zero byte for the zero vector.
    open spec fn spec_encode(&self) -> Seq<u8> {
        match *self {
            QuantizedVec3::Zero => seq![0u8],
            QuantizedVec3::Scaled { x, y, z, scale } => lp_bytes(x, y, z, scale),
        }
    }

    fn encode(&self, buf: &mut Vec<u8>) {
        match *self {
            QuantizedVec3::Zero => {
                buf.push(0);
                assert(buf@ =~= old(buf)@ + seq![0u8]);
            },
            QuantizedVec3::Scaled { x, y, z, scale } => {
                let partial = (scale & 3) != scale;
                let markers = if partial {
                    (scale & 3) | 4
                } else {
                    scale
                };
                let word = markers | (x << 3u64) | (y << 18u64) | (z << 33u64);
                buf.push((word & 0xff) as u8);
                buf.push(((word >> 8u64) & 0xff) as u8);
                write_be(((word >> 16u64) as u32) as u64, 4, buf);
                let ghost head = buf@;
                if partial {
                    VarI32((scale >> 2u64) as i32).encode(buf);
                }
                assert(buf@ =~= old(buf)@ + lp_bytes(x, y, z, scale));
            },
        }
    }
}

/// The scale a first byte and its continuation give: the two low bits, and
/// when the continuation flag is set, the next variable-length integer above
/// them.
pub open spec fn lp_scale(lowest: u8, continuation: i32) -> u64 {
    ((lowest as u64) & 3) | ((((continuation as u32) as u64) & 0xFFFF_FFFF) << 2u64)
}

impl Decode for QuantizedVec3 {
    /// A zero first byte is the zero vector; otherwise two bytes and a
    /// four-byte big-endian number make up the packed word, followed by the
    /// rest of the scale when the first byte flags it.
    open spec fn decodes(before: DecodeState, result: Result<QuantizedVec3, DecodeError>, after: DecodeState) -> bool {
        let (t0, s0) = spec_take(before, 1);
        match t0 {
            Err(e) => result == Err::<QuantizedVec3, DecodeError>(e) && after == s0,
            Ok(b0) => {
                let lowest = b0[0];
                if lowest == 0 {
                    result == Ok::<QuantizedVec3, DecodeError>(QuantizedVec3::Zero) && after == s0
                } else {
                    let (t1, s1) = spec_take(s0, 1);
                    match t1 {
                        Err(e) => result == Err::<QuantizedVec3, DecodeError>(e) && after == s1,
                        Ok(b1) => {
                            let (t2, s2) = spec_take(s1, 4);
                            match t2 {
                                Err(e) => result == Err::<QuantizedVec3, DecodeError>(e) && after
                                    == s2,
                                Ok(b2) => {
                                    let word = ((be_value(b2) as u64) << 16u64) | ((b1[0] as u64)
                                        << 8u64) | (lowest as u64);
                                    if (lowest as u64) & 4 == 4 {
                                        let s3 = s2.advance(var_consumed(s2.rest, 5) as int);
                                        &&& after == s3
                                        &&& result == match spec_var_int(s2.rest) {
                                            Ok(c) => Ok(lp_unpacked(word, lp_scale(lowest, c))),
                                            Err(e) => Err::<QuantizedVec3, DecodeError>(e),
                                        }
                                    } else {
                                        &&& after == s2
                                        &&& result == Ok::<QuantizedVec3, DecodeError>(
                                            lp_unpacked(word, (lowest as u64) & 3),
                                        )
                                    }
                                },
                            }
                        },
                    }
                }
            },
        }
    }

    fn decode_with(decoder: &mut Decoder<'_>) -> (res: Result<QuantizedVec3, DecodeError>) {
        let first = decoder.take(1)?;
        let lowest = first[0];
        if lowest == 0 {
            return Ok(QuantizedVec3::Zero);
        }
        let second = decoder.take(1)?;
        let middle = second[0] as u64;
        let rest = decoder.take(4)?;
        let highest = read_be(rest);
        proof {
            lemma_pow256_values();
            lemma_be_value_bound(rest@);
        }
        let word = (highest << 16u64) | (middle << 8u64) | (lowest as u64);
        let mut scale = (lowest as u64) & 3;
        if (lowest as u64) & 4 == 4 {
            let continuation = VarI32::decode_with(decoder)?;
            scale = scale | ((((continuation.0 as u32) as u64) & 0xFFFF_FFFF) << 2u64);
        }
        let x = (word >> 3u64) & 32767;
        let y = (word >> 18u64) & 32767;
        let z = (word >> 33u64) & 32767;
        Ok(
            QuantizedVec3::Scaled {
                x: if x < MAX_QUANTIZED {
                    x
                } else {
                    MAX_QUANTIZED
                },
                y: if y < MAX_QUANTIZED {
                    y
                } else {
                    MAX_QUANTIZED
                },
                z: if z < MAX_QUANTIZED {
                    z
                } else {
                    MAX_QUANTIZED
                },
                scale,
            },
        )
    }
}

/// What the packed word of quantised components within range gives back: its
/// bytes reassemble into it, each component reads back unchanged, the first
/// byte is not zero for a scale of at least one, and it carries the two low
/// bits of the scale and the continuation flag exactly when the scale is
/// partial.
proof fn lemma_lp_word(x: u64, y: u64, z: u64, scale: u64)
    requires
        x <= 32766,
        y <= 32766,
        z <= 32766,
        1 <= scale,
    ensures
        ({
            let w = lp_word(x, y, z, scale);
            let lowest = (w & 0xff) as u8;
            let middle = ((w >> 8u64) & 0xff) as u8;
            let highest = (w >> 16u64) as u32;
            &&& ((highest as u64) << 16u64) | ((middle as u64) << 8u64) | (lowest as u64) == w
            &&& lp_component(w >> 3u64) == x
            &&& lp_component(w >> 18u64) == y
            &&& lp_component(w >> 33u64) == z
            &&& lowest != 0
            &&& (lowest as u64) & 3 == scale & 3
            &&& ((lowest as u64) & 4 == 4) == partial_scale(scale)
        }),
{
    let m = lp_markers(scale);
    assert(m < 8 && m != 0 && m & 3 == scale & 3 && ((m & 4 == 4) == (scale & 3 != scale))) by (bit_vector)
        requires
            m == (if scale & 3 != scale {
                (scale & 3) | 4
            } else {
                scale
            }),
            1 <= scale,
    ;
    let w = lp_word(x, y, z, scale);
    assert({
        let lowest = (w & 0xff) as u8;
        let middle = ((w >> 8u64) & 0xff) as u8;
        let highest = (w >> 16u64) as u32;
        &&& ((highest as u64) << 16u64) | ((middle as u64) << 8u64) | (lowest as u64) == w
        &&& (w >> 3u64) & 32767 == x
        &&& (w >> 18u64) & 32767 == y
        &&& (w >> 33u64) & 32767 == z
        &&& lowest != 0
        &&& (lowest as u64) & 3 == m & 3
        &&& ((lowest as u64) & 4 == 4) == (m & 4 == 4)
    }) by (bit_vector)
        requires
            w == m | (x << 3u64) | (y << 18u64) | (z << 33u64),
            m < 8,
            m != 0,
            x <= 32766,
            y <= 32766,
            z <= 32766,
    ;
}

/// A partial scale below 2^34 is its two low bits and the variable-length
/// integer that follows them.
proof fn lemma_lp_scale(scale: u64)
    requires
        scale < 0x4_0000_0000,
    ensures
        ((scale & 3) | ((((((scale >> 2u64) as i32) as u32) as u64) & 0xFFFF_FFFF) << 2u64))
            == scale,
{
    assert(((scale & 3) | ((((((scale >> 2u64) as i32) as u32) as u64) & 0xFFFF_FFFF) << 2u64))
        == scale) by (bit_vector)
        requires
            scale < 0x4_0000_0000,
    ;
}

/// Decoding what `QuantizedVec3::encode` wrote gives the same vector back and
/// leaves exactly what followed it, for components within the quantised range
/// and any scale from one up to 2^34.
pub proof fn quantized_roundtrip(
    v: QuantizedVec3,
    tail: Seq<u8>,
    before: DecodeState,
    result: Result<QuantizedVec3, DecodeError>,
    after: DecodeState,
)
    requires
        v matches QuantizedVec3::Scaled { x, y, z, scale } ==> x <= MAX_QUANTIZED && y
            <= MAX_QUANTIZED && z <= MAX_QUANTIZED && 1 <= scale < 0x4_0000_0000,
        before.rest == v.spec_encode() + tail,
        QuantizedVec3::decodes(before, result, after),
    ensures
        result == Ok::<QuantizedVec3, DecodeError>(v),
        after.rest == tail,
{
    match v {
        QuantizedVec3::Zero => {
            assert(before.rest.subrange(0, 1) =~= seq![0u8]);
            assert(before.advance(1).rest =~= tail);
        },
        QuantizedVec3::Scaled { x, y, z, scale } => {
            lemma_lp_word(x, y, z, scale);
            let w = lp_word(x, y, z, scale);
            let lowest = (w & 0xff) as u8;
            let middle = ((w >> 8u64) & 0xff) as u8;
            let highest = (w >> 16u64) as u32;
            let four = be_bytes(highest as nat, 4);
            lemma_be_bytes_len(highest as nat, 4);
            lemma_be_value_of_bytes(highest as nat, 4);
            lemma_pow256_values();
            let more = if partial_scale(scale) {
                VarI32((scale >> 2u64) as i32).spec_encode()
            } else {
                Seq::empty()
            };
            let rest = before.rest;
            assert(rest =~= seq![lowest, middle] + four + (more + tail));
            let s0 = before.advance(1);
            let s1 = s0.advance(1);
            let s2 = s1.advance(4);
            assert(rest.subrange(0, 1) =~= seq![lowest]);
            assert(s0.rest.subrange(0, 1) =~= seq![middle]);
            assert(s1.rest.subrange(0, 4) =~= four);
            assert(s2.rest =~= more + tail);
            assert(be_value(four) == highest);
            if partial_scale(scale) {
                let c = (scale >> 2u64) as i32;
                let header = match spec_var_int(s2.rest) {
                    Ok(n) => Ok(VarI32(n)),
                    Err(e) => Err::<VarI32, DecodeError>(e),
                };
                var_i32_roundtrip(c, tail, s2, header, s2.advance(var_consumed(s2.rest, 5) as int));
                lemma_lp_scale(scale);
                assert(lp_scale(lowest, c) == scale);
            } else {
                assert(s2.rest =~= tail);
            }
        },
    }
}

} // verus!
