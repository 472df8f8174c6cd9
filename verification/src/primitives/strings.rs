use vstd::prelude::*;

use vstd::utf8::{decode_utf8, encode_utf8, encode_utf8_decode_utf8, encode_utf8_valid_utf8, valid_utf8};

use crate::decoder::{spec_checked_len, spec_take, Decode, DecodeState, Decoder, Encode};
use crate::error::{DecodeError, LimitKind};
use crate::primitives::varint::{spec_var_int, var_i32_roundtrip, VarI32};
use crate::wire::var_consumed;

verus! {

/// `std::str::from_utf8`: the bytes read as text when they are valid UTF-8,
/// nothing otherwise.
#[verifier::external_body]
fn utf8_text(bytes: &[u8]) -> (r: Option<&str>)
    ensures
        match r {
            Some(text) => valid_utf8(bytes@) && encode_utf8(text@) == bytes@,
            None => !valid_utf8(bytes@),
        },
{
    std::str::from_utf8(bytes).ok()
}

impl Encode for String {
    open spec fn obeys_encode_spec() -> bool {
        true
    }

    /// The length of the UTF-8 text in bytes as a variable-length integer,
    /// then the text.
    open spec fn spec_encode(&self) -> Seq<u8> {
        VarI32(encode_utf8(self@).len() as i32).spec_encode() + encode_utf8(self@)
    }

    fn encode(&self, buf: &mut Vec<u8>) {
        let bytes = self.as_str().as_bytes();
        VarI32(bytes.len() as i32).encode(buf);
        buf.extend_from_slice(bytes);
        assert(buf@ =~= old(buf)@ + self.spec_encode());
    }
}

impl Decode for String {
    /// A variable-length byte count, which must be non-negative and within
    /// the string budget, then that many bytes, which must be valid UTF-8.
    open spec fn decodes(before: DecodeState, result: Result<String, DecodeError>, after: DecodeState) -> bool {
        let mid = before.advance(var_consumed(before.rest, 5) as int);
        match spec_var_int(before.rest) {
            Err(e) => result == Err::<String, DecodeError>(e) && after == mid,
            Ok(n) => match spec_checked_len(n, LimitKind::StringBytes, before.limits.max_string_bytes) {
                Err(e) => result == Err::<String, DecodeError>(e) && after == mid,
                Ok(len) => {
                    let (t, s) = spec_take(mid, len as int);
                    &&& after == s
                    &&& match t {
                        Err(e) => result == Err::<String, DecodeError>(e),
                        Ok(bytes) => if valid_utf8(bytes) {
                            result matches Ok(text) && encode_utf8(text@) == bytes
                        } else {
                            result == Err::<String, DecodeError>(DecodeError::InvalidLength)
                        },
                    }
                },
            },
        }
    }

    fn decode_with(decoder: &mut Decoder<'_>) -> (res: Result<String, DecodeError>) {
        let n = VarI32::decode_with(decoder)?.0;
        let limits = decoder.limits();
        let len = decoder.checked_len(n, LimitKind::StringBytes, limits.max_string_bytes)?;
        let bytes = decoder.take(len)?;
        match utf8_text(bytes) {
            Some(text) => Ok(text.to_owned()),
            None => Err(DecodeError::InvalidLength),
        }
    }
}

/// Decoding what `String::encode` wrote, within the string budget, gives the
/// same text back and leaves exactly what followed it.
pub proof fn string_roundtrip(
    text: Seq<char>,
    tail: Seq<u8>,
    before: DecodeState,
    result: Result<String, DecodeError>,
    after: DecodeState,
)
    requires
        encode_utf8(text).len() <= i32::MAX,
        encode_utf8(text).len() <= before.limits.max_string_bytes,
        before.rest == VarI32(encode_utf8(text).len() as i32).spec_encode() + encode_utf8(text) + tail,
        String::decodes(before, result, after),
    ensures
        result matches Ok(s) && s@ == text,
        after.rest == tail,
{
    let bytes = encode_utf8(text);
    let n = bytes.len() as i32;
    let header_after = before.advance(var_consumed(before.rest, 5) as int);
    let header = match spec_var_int(before.rest) {
        Ok(x) => Ok(VarI32(x)),
        Err(e) => Err::<VarI32, DecodeError>(e),
    };
    assert(before.rest =~= VarI32(n).spec_encode() + (bytes + tail));
    var_i32_roundtrip(n, bytes + tail, before, header, header_after);
    let mid = header_after;
    assert(mid.rest.subrange(0, bytes.len() as int) =~= bytes);
    assert(mid.advance(bytes.len() as int).rest =~= tail);
    encode_utf8_valid_utf8(text);
    if let Ok(s) = result {
        encode_utf8_decode_utf8(text);
        encode_utf8_decode_utf8(s@);
        assert(decode_utf8(encode_utf8(s@)) == s@);
    }
}

} // verus!
