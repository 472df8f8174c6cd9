use vstd::prelude::*;

use crate::decoder::{spec_take, Decode, DecodeState, Decoder, Encode};
use crate::error::DecodeError;

verus! {

impl Encode for bool {
    open spec fn obeys_encode_spec() -> bool {
        true
    }

    open spec fn spec_encode(&self) -> Seq<u8> {
        seq![if *self { 1u8 } else { 0u8 }]
    }

    fn encode(&self, buf: &mut Vec<u8>) {
        buf.push(if *self { 1 } else { 0 });
        assert(buf@ =~= old(buf)@ + self.spec_encode());
    }
}

impl Decode for bool {
    /// One byte is read; every byte but zero means `true`.
    open spec fn decodes(before: DecodeState, result: Result<bool, DecodeError>, after: DecodeState) -> bool {
        let (r, s) = spec_take(before, 1);
        &&& after == s
        &&& result == match r {
            Ok(bytes) => Ok(bytes[0] != 0),
            Err(e) => Err::<bool, DecodeError>(e),
        }
    }

    fn decode_with(decoder: &mut Decoder<'_>) -> (res: Result<bool, DecodeError>) {
        let bytes = decoder.take(1)?;
        Ok(bytes[0] != 0)
    }
}

/// Decoding what `bool::encode` wrote gives the same value back.
pub proof fn bool_roundtrip(v: bool, tail: Seq<u8>, before: DecodeState, result: Result<bool, DecodeError>, after: DecodeState)
    requires
        before.rest == v.spec_encode() + tail,
        bool::decodes(before, result, after),
    ensures
        result == Ok::<bool, DecodeError>(v),
        after.rest == tail,
{
    assert(before.rest.subrange(0, 1) =~= v.spec_encode());
    assert(before.advance(1).rest =~= tail);
}

} // verus!
