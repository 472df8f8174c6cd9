use vstd::prelude::*;

use crate::decoder::{
    decode_step, sat_add, spec_charge_allocation, spec_charge_elements, spec_take, Decode,
    DecodeState, Decoder, Encode,
};
use crate::error::{DecodeError, LimitKind};
use crate::text::{decimal, decimal_chars};

verus! {

/// The bytes that encoding each item of `items` in turn appends.
pub open spec fn encode_all<T: Encode>(items: Seq<T>) -> Seq<u8>
    decreases items.len(),
{
    if items.len() == 0 {
        Seq::empty()
    } else {
        encode_all(items.drop_last()) + items.last().spec_encode()
    }
}

/// Holds when `states` is the run of decoder states that decoding `items` in
/// turn passes through: each item is a nested decode from one state to the next.
pub open spec fn items_chain<T: Decode>(states: Seq<DecodeState>, items: Seq<T>) -> bool {
    &&& states.len() == items.len() + 1
    &&& forall|i: int|
        0 <= i < items.len() ==> #[trigger] decode_step::<T>(states[i], Ok(items[i]), states[i + 1])
}

/// Holds when decoding `items.len()` nested values in turn from `before`
/// gives exactly `items` and leaves the decoder in state `after`.
pub open spec fn items_decode<T: Decode>(before: DecodeState, items: Seq<T>, after: DecodeState) -> bool {
    exists|states: Seq<DecodeState>|
        #![trigger items_chain(states, items)]
        items_chain(states, items) && states[0] == before && states.last() == after
}

/// One more decoded item extends the run of decoded items.
pub proof fn lemma_items_decode_push<T: Decode>(
    states: Seq<DecodeState>,
    items: Seq<T>,
    item: T,
    after: DecodeState,
)
    requires
        items_chain(states, items),
        decode_step::<T>(states.last(), Ok(item), after),
    ensures
        items_chain(states.push(after), items.push(item)),
{
    let s2 = states.push(after);
    let i2 = items.push(item);
    assert forall|i: int| 0 <= i < i2.len() implies #[trigger] decode_step::<T>(s2[i], Ok(i2[i]), s2[i + 1]) by {
        if i < items.len() {
            assert(s2[i] == states[i] && s2[i + 1] == states[i + 1] && i2[i] == items[i]);
        } else {
            assert(s2[i] == states.last() && s2[i + 1] == after && i2[i] == item);
        }
    }
}

/// The message a length mismatch is reported with.
pub open spec fn mismatch_message(expected: usize, got: usize) -> Seq<char> {
    "Fixed-length vector length mismatch: expected "@ + decimal_chars(expected as nat) + ", got "@
        + decimal_chars(got as nat)
}

fn mismatch(expected: usize, got: usize) -> (msg: String)
    ensures
        msg@ == mismatch_message(expected, got),
{
    let msg = String::from_str("Fixed-length vector length mismatch: expected ");
    let a = decimal(expected as u64);
    let msg = msg.concat(a.as_str());
    let msg = msg.concat(", got ");
    let b = decimal(got as u64);
    msg.concat(b.as_str())
}

/// Encodes exactly `expected_len` items with no length prefix.
pub fn encode_fixed_length_vec<T: Encode>(vec: &[T], expected_len: usize, buf: &mut Vec<u8>) -> (res: Result<(), String>)
    ensures
        vec@.len() != expected_len ==> final(buf)@ == old(buf)@ && (res matches Err(msg) && msg@
            == mismatch_message(expected_len, vec@.len() as usize)),
        vec@.len() == expected_len ==> res is Ok && (T::obeys_encode_spec() ==> final(buf)@ == old(buf)@
            + encode_all(vec@)),
{
    if vec.len() != expected_len {
        return Err(mismatch(expected_len, vec.len()));
    }
    let mut i: usize = 0;
    while i < vec.len()
        invariant
            i <= vec@.len(),
            T::obeys_encode_spec() ==> buf@ == old(buf)@ + encode_all(vec@.subrange(0, i as int)),
        decreases vec@.len() - i,
    {
        vec[i].encode(buf);
        assert(vec@.subrange(0, i as int + 1).drop_last() =~= vec@.subrange(0, i as int));
        proof {
            if T::obeys_encode_spec() {
                assert(buf@ =~= old(buf)@ + encode_all(vec@.subrange(0, i as int + 1)));
            }
        }
        i = i + 1;
    }
    assert(vec@.subrange(0, i as int) =~= vec@);
    Ok(())
}

/// Encodes exactly `expected_len` raw bytes with no length prefix.
pub fn encode_fixed_length_vec_u8(vec: &[u8], expected_len: usize, buf: &mut Vec<u8>) -> (res: Result<(), String>)
    ensures
        vec@.len() != expected_len ==> final(buf)@ == old(buf)@ && (res matches Err(msg) && msg@
            == mismatch_message(expected_len, vec@.len() as usize)),
        vec@.len() == expected_len ==> res is Ok && final(buf)@ == old(buf)@ + vec@,
{
    if vec.len() != expected_len {
        return Err(mismatch(expected_len, vec.len()));
    }
    buf.extend_from_slice(vec);
    assert(buf@ =~= old(buf)@ + vec@);
    Ok(())
}

/// `Vec::try_reserve_exact` from std: asks the allocator for room for
/// `additional` more items and reports whether it was given. Whether it is
/// depends on the allocator, so of a request for more nothing is promised;
/// std documents that it does nothing when the capacity already suffices,
/// which a request for no more items always does, so that one succeeds. The
/// contents of the vector are left as they were either way.
#[verifier::external_body]
fn try_reserve_exact<T>(v: &mut Vec<T>, additional: usize) -> (reserved: bool)
    ensures
        final(v)@ == old(v)@,
        additional == 0 ==> reserved,
{
    v.try_reserve_exact(additional).is_ok()
}

pub open spec fn vec_result_view<T>(r: Result<Vec<T>, DecodeError>) -> Result<Seq<T>, DecodeError> {
    match r {
        Ok(v) => Ok(v@),
        Err(e) => Err(e),
    }
}

/// Holds when, decoding `len` items in turn from `before`, fewer than `len`
/// are decoded and the next one fails with `error`, leaving state `after`.
pub open spec fn items_fail<T: Decode>(before: DecodeState, len: usize, error: DecodeError, after: DecodeState) -> bool {
    exists|items: Seq<T>, mid: DecodeState|
        #![trigger items_decode(before, items, mid)]
        items.len() < len && items_decode(before, items, mid) && decode_step::<T>(
            mid,
            Err(error),
            after,
        )
}

/// Holds when decoding `len` nested `T`s with no length prefix from `before`
/// can give `result` and leave the decoder in state `after`: the elements and
/// their memory are charged first, the allocator may refuse the memory (never
/// when there are no items), and then the items are read in turn until one
/// fails.
pub open spec fn fixed_vec_decodes<T: Decode>(
    len: usize,
    before: DecodeState,
    result: Result<Seq<T>, DecodeError>,
    after: DecodeState,
) -> bool {
    let (c1, s1) = spec_charge_elements(before, len);
    match c1 {
        Err(e) => result == Err::<Seq<T>, DecodeError>(e) && after == s1,
        Ok(_) => if len * vstd::layout::size_of::<T>() > usize::MAX {
            result == Err::<Seq<T>, DecodeError>(DecodeError::InvalidLength) && after == s1
        } else {
            let allocation = (len * vstd::layout::size_of::<T>()) as usize;
            let (c2, s2) = spec_charge_allocation(s1, allocation);
            match c2 {
                Err(e) => result == Err::<Seq<T>, DecodeError>(e) && after == s2,
                Ok(_) => {
                    ||| (len > 0 && result == Err::<Seq<T>, DecodeError>(
                        DecodeError::AllocationFailed { requested: allocation },
                    ) && after == s2)
                    ||| (result matches Ok(items) && items.len() == len && items_decode(
                        s2,
                        items,
                        after,
                    ))
                    ||| (result matches Err(e) && items_fail::<T>(s2, len, e, after))
                },
            }
        },
    }
}

/// Decodes exactly `len` nested values with no length prefix.
pub fn decode_fixed_length_vec<T: Decode>(len: usize, decoder: &mut Decoder<'_>) -> (res: Result<Vec<T>, DecodeError>)
    ensures
        fixed_vec_decodes::<T>(len, old(decoder)@, vec_result_view(res), final(decoder)@),
{
    decoder.charge_elements(len)?;
    let size = core::mem::size_of::<T>();
    let allocation = match len.checked_mul(size) {
        Some(a) => a,
        None => return Err(DecodeError::InvalidLength),
    };
    decoder.charge_allocation(allocation)?;
    let mut vec: Vec<T> = Vec::new();
    let reserved = try_reserve_exact(&mut vec, len);
    decode_reserved(len, reserved, vec, decoder)
}

/// Reads `len` nested values into `vec`, for which room for them was asked:
/// when the allocator refused it, the memory asked for is reported;
/// otherwise the items are read in turn, all `len` of them, or until one
/// fails with its own error.
#[verifier::loop_isolation(false)]
pub fn decode_reserved<T: Decode>(len: usize, reserved: bool, vec: Vec<T>, decoder: &mut Decoder<'_>) -> (res: Result<Vec<T>, DecodeError>)
    requires
        vec@.len() == 0,
        len * vstd::layout::size_of::<T>() <= usize::MAX,
    ensures
        !reserved ==> res == Err::<Vec<T>, DecodeError>(
            DecodeError::AllocationFailed { requested: (len * vstd::layout::size_of::<T>()) as usize },
        ) && final(decoder)@ == old(decoder)@,
        reserved ==> {
            ||| (res matches Ok(items) && items@.len() == len && items_decode(old(decoder)@, items@, final(decoder)@))
            ||| (res matches Err(e) && items_fail::<T>(old(decoder)@, len, e, final(decoder)@))
        },
{
    let mut vec = vec;
    if !reserved {
        let allocation = len * core::mem::size_of::<T>();
        return Err(DecodeError::AllocationFailed { requested: allocation });
    }
    let ghost s2 = decoder@;
    let mut i: usize = 0;
    let ghost mut states = seq![s2];
    proof {
        assert(vec@ =~= Seq::<T>::empty());
    }
    while i < len
        invariant
            i <= len,
            vec@.len() == i,
            items_chain::<T>(states, vec@),
            states[0] == s2,
            states.last() == decoder@,
        decreases len - i,
    {
        let ghost mid = decoder@;
        let ghost prev = vec@;
        let item = match decoder.decode::<T>() {
            Ok(item) => item,
            Err(e) => {
                assert(items_chain::<T>(states, prev));
                assert(items_decode::<T>(s2, prev, mid) && decode_step::<T>(mid, Err(e), decoder@));
                assert(items_fail::<T>(s2, len, e, decoder@));
                return Err(e);
            },
        };
        proof {
            lemma_items_decode_push(states, prev, item, decoder@);
            states = states.push(decoder@);
        }
        vec.push(item);
        i = i + 1;
    }
    assert(items_chain::<T>(states, vec@));
    Ok(vec)
}

/// Outcome of reading `len` raw bytes with no length prefix: the bytes are
/// charged as elements and as memory, then read.
pub open spec fn spec_fixed_bytes(before: DecodeState, len: usize) -> (Result<Seq<u8>, DecodeError>, DecodeState) {
    let (c1, s1) = spec_charge_elements(before, len);
    match c1 {
        Err(e) => (Err(e), s1),
        Ok(_) => {
            let (c2, s2) = spec_charge_allocation(s1, len);
            match c2 {
                Err(e) => (Err(e), s2),
                Ok(_) => spec_take(s2, len as int),
            }
        },
    }
}

/// Decodes exactly `len` raw bytes with no length prefix.
pub fn decode_fixed_length_vec_u8(len: usize, decoder: &mut Decoder<'_>) -> (res: Result<Vec<u8>, DecodeError>)
    ensures
        (vec_result_view(res), final(decoder)@) == spec_fixed_bytes(old(decoder)@, len),
{
    decoder.charge_elements(len)?;
    decoder.charge_allocation(len)?;
    let data = decoder.take(len)?;
    Ok(vstd::slice::slice_to_vec(data))
}

/// Reading back as many raw bytes as were written, within the element and
/// memory budgets, gives the same bytes and leaves what followed them.
pub proof fn fixed_bytes_roundtrip(v: Seq<u8>, tail: Seq<u8>, before: DecodeState)
    requires
        before.rest == v + tail,
        v.len() <= usize::MAX,
        before.elements + v.len() <= before.limits.max_total_elements,
        before.allocated + v.len() <= before.limits.max_allocation_bytes,
    ensures
        spec_fixed_bytes(before, v.len() as usize).0 == Ok::<Seq<u8>, DecodeError>(v),
        spec_fixed_bytes(before, v.len() as usize).1.rest == tail,
{
    assert(before.rest.subrange(0, v.len() as int) =~= v);
    assert(before.rest.subrange(v.len() as int, before.rest.len() as int) =~= tail);
}

/// Encodes raw bytes that run to the end of the packet: no length prefix.
pub fn encode_remaining_vec_u8(vec: &[u8], buf: &mut Vec<u8>)
    ensures
        final(buf)@ == old(buf)@ + vec@,
{
    buf.extend_from_slice(vec);
    assert(buf@ =~= old(buf)@ + vec@);
}

/// Outcome of reading every byte left: refused beyond the remaining-bytes
/// budget, otherwise charged as memory and read.
pub open spec fn spec_remaining_bytes(before: DecodeState) -> (Result<Seq<u8>, DecodeError>, DecodeState) {
    let len = before.rest.len() as usize;
    if len > before.limits.max_remaining_bytes {
        (
            Err(
                DecodeError::LimitExceeded {
                    kind: LimitKind::RemainingBytes,
                    requested: len,
                    limit: before.limits.max_remaining_bytes,
                },
            ),
            before,
        )
    } else {
        let (c, s) = spec_charge_allocation(before, len);
        match c {
            Err(e) => (Err(e), s),
            Ok(_) => spec_take(s, len as int),
        }
    }
}

/// Decodes every byte left in the decoder.
pub fn decode_remaining_vec_u8(decoder: &mut Decoder<'_>) -> (res: Result<Vec<u8>, DecodeError>)
    ensures
        (vec_result_view(res), final(decoder)@) == spec_remaining_bytes(old(decoder)@),
{
    let len = decoder.remaining_len();
    let limits = decoder.limits();
    if len > limits.max_remaining_bytes {
        return Err(
            DecodeError::LimitExceeded {
                kind: LimitKind::RemainingBytes,
                requested: len,
                limit: limits.max_remaining_bytes,
            },
        );
    }
    decoder.charge_allocation(len)?;
    let data = decoder.take(len)?;
    assert(data@ =~= old(decoder)@.rest);
    Ok(vstd::slice::slice_to_vec(data))
}

/// Bytes written to run to the end of the packet are read back whole, within
/// the remaining-bytes and memory budgets, and nothing is left after them.
pub proof fn remaining_bytes_roundtrip(v: Seq<u8>, before: DecodeState)
    requires
        before.rest == v,
        v.len() <= before.limits.max_remaining_bytes,
        before.allocated + v.len() <= before.limits.max_allocation_bytes,
    ensures
        spec_remaining_bytes(before).0 == Ok::<Seq<u8>, DecodeError>(v),
        spec_remaining_bytes(before).1.rest.len() == 0,
{
    assert(before.rest.subrange(0, v.len() as int) =~= v);
}

} // verus!
