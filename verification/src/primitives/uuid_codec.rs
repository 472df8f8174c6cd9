use vstd::prelude::*;

use uuid::Uuid;

use crate::decoder::{spec_take, Decode, DecodeState, Decoder, Encode};
use crate::error::DecodeError;

verus! {

#[verifier::external_type_specification]
#[verifier::external_body]
pub struct ExUuid(uuid::Uuid);

/// The sixteen octets a UUID is made of, most significant first.
pub uninterp spec fn uuid_octets(id: Uuid) -> Seq<u8>;

/// `Uuid::as_bytes` from the uuid crate: the sixteen octets the UUID holds.
#[verifier::external_body]
fn octets_of(id: &Uuid) -> (bytes: [u8; 16])
    ensures
        bytes@ == uuid_octets(*id),
{
    *id.as_bytes()
}

/// `Uuid::from_bytes` from the uuid crate: the UUID made of exactly these
/// octets, so that `as_bytes` gives them back. A `Uuid` is nothing but its
/// sixteen octets, so it is the only UUID with them.
#[verifier::external_body]
fn uuid_from_octets(bytes: [u8; 16]) -> (id: Uuid)
    ensures
        uuid_octets(id) == bytes@,
        forall|other: Uuid| #[trigger] uuid_octets(other) == bytes@ ==> other == id,
{
    Uuid::from_bytes(bytes)
}

impl Encode for Uuid {
    open spec fn obeys_encode_spec() -> bool {
        true
    }

    /// The sixteen octets, most significant first.
    open spec fn spec_encode(&self) -> Seq<u8> {
        uuid_octets(*self)
    }

    fn encode(&self, buf: &mut Vec<u8>) {
        let bytes = octets_of(self);
        buf.extend_from_slice(bytes.as_slice());
        assert(buf@ =~= old(buf)@ + uuid_octets(*self));
    }
}

impl Decode for Uuid {
    /// Sixteen bytes, taken as the octets of the UUID.
    open spec fn decodes(before: DecodeState, result: Result<Uuid, DecodeError>, after: DecodeState) -> bool {
        let (t, s) = spec_take(before, 16);
        &&& after == s
        &&& match t {
            Ok(bytes) => (result matches Ok(id) && uuid_octets(id) == bytes && forall|other: Uuid|
                #[trigger] uuid_octets(other) == bytes ==> other == id),
            Err(e) => result == Err::<Uuid, DecodeError>(e),
        }
    }

    fn decode_with(decoder: &mut Decoder<'_>) -> (res: Result<Uuid, DecodeError>) {
        let b = decoder.take(16)?;
        let bytes: [u8; 16] = [
            b[0], b[1], b[2], b[3], b[4], b[5], b[6], b[7], b[8], b[9], b[10], b[11], b[12], b[13],
            b[14], b[15],
        ];
        assert(bytes@ =~= b@);
        Ok(uuid_from_octets(bytes))
    }
}

/// Decoding what `Uuid::encode` wrote gives the same UUID back and consumes
/// exactly its sixteen octets.
pub proof fn uuid_roundtrip(v: Uuid, tail: Seq<u8>, before: DecodeState, result: Result<Uuid, DecodeError>, after: DecodeState)
    requires
        before.rest == v.spec_encode() + tail,
        uuid_octets(v).len() == 16,
        Uuid::decodes(before, result, after),
    ensures
        result == Ok::<Uuid, DecodeError>(v),
        after.rest == tail,
{
    assert(before.rest.subrange(0, 16) =~= uuid_octets(v));
    assert(before.advance(16).rest =~= tail);
}

} // verus!
