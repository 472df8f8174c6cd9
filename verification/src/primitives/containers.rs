use vstd::prelude::*;

use crate::decoder::{
    decode_step, lemma_advance_twice, lemma_advance_zero, sat_add, spec_charge_allocation,
    spec_charge_elements, spec_checked_len, Decode, DecodeState, Decoder, Encode,
};
use crate::error::{DecodeError, LimitKind};
use crate::primitives::fixed_length::{
    decode_fixed_length_vec, encode_all, fixed_vec_decodes, items_chain, items_decode,
    items_fail, vec_result_view,
};
use crate::primitives::booleans::bool_roundtrip;
use crate::primitives::integers::{
    i32_roundtrip, i64_roundtrip, u16_roundtrip, u32_roundtrip, u64_roundtrip, u8_roundtrip,
};
use crate::primitives::varint::{spec_var_int, var_i32_roundtrip, var_i64_roundtrip, VarI32, VarI64};
use crate::wire::{lemma_be_bytes_len, var_consumed};

verus! {

broadcast use vstd::layout::layout_of_primitives;

impl<T: Encode> Encode for Vec<T> {
    /// What a vector writes is stated when what its items write is.
    open spec fn obeys_encode_spec() -> bool {
        T::obeys_encode_spec()
    }

    /// The item count as a variable-length integer, then each item in turn.
    open spec fn spec_encode(&self) -> Seq<u8> {
        VarI32(self.len() as i32).spec_encode() + encode_all(self@)
    }

    fn encode(&self, buf: &mut Vec<u8>) {
        VarI32(self.len() as i32).encode(buf);
        let ghost prefix = buf@;
        let mut i: usize = 0;
        while i < self.len()
            invariant
                i <= self@.len(),
                prefix == old(buf)@ + VarI32(self.len() as i32).spec_encode(),
                T::obeys_encode_spec() ==> buf@ == prefix + encode_all(self@.subrange(0, i as int)),
            decreases self@.len() - i,
        {
            self[i].encode(buf);
            assert(self@.subrange(0, i as int + 1).drop_last() =~= self@.subrange(0, i as int));
            proof {
                if T::obeys_encode_spec() {
                    assert(buf@ =~= prefix + encode_all(self@.subrange(0, i as int + 1)));
                }
            }
            i = i + 1;
        }
        assert(self@.subrange(0, i as int) =~= self@);
        proof {
            if T::obeys_encode_spec() {
                assert(buf@ =~= old(buf)@ + self.spec_encode());
            }
        }
    }
}

impl<T: Decode> Decode for Vec<T> {
    /// A variable-length item count, which must be non-negative and within the
    /// collection budget, then that many items as `decode_fixed_length_vec`
    /// reads them.
    open spec fn decodes(before: DecodeState, result: Result<Vec<T>, DecodeError>, after: DecodeState) -> bool {
        let mid = before.advance(var_consumed(before.rest, 5) as int);
        match spec_var_int(before.rest) {
            Err(e) => result == Err::<Vec<T>, DecodeError>(e) && after == mid,
            Ok(n) => match spec_checked_len(
                n,
                LimitKind::CollectionElements,
                before.limits.max_collection_elements,
            ) {
                Err(e) => result == Err::<Vec<T>, DecodeError>(e) && after == mid,
                Ok(count) => fixed_vec_decodes::<T>(count, mid, vec_result_view(result), after),
            },
        }
    }

    fn decode_with(decoder: &mut Decoder<'_>) -> (res: Result<Vec<T>, DecodeError>) {
        let len = VarI32::decode_with(decoder)?.0;
        let limits = decoder.limits();
        let count = decoder.checked_len(len, LimitKind::CollectionElements, limits.max_collection_elements)?;
        decode_fixed_length_vec(count, decoder)
    }
}

/// `T` reads back exactly what it writes, from any state: the value comes
/// back and the state only moves past its bytes. The integer, boolean and
/// variable-length codecs behave so; see the laws below.
pub open spec fn reads_back_what_it_writes<T: Encode + Decode>() -> bool {
    forall|x: T, tail: Seq<u8>, s: DecodeState, r: Result<T, DecodeError>, a: DecodeState|
        #![trigger T::decodes(s, r, a), x.spec_encode() + tail]
        s.rest == x.spec_encode() + tail && T::decodes(s, r, a) ==> r == Ok::<T, DecodeError>(x)
            && a == s.advance(x.spec_encode().len() as int)
}

/// Encoding two runs of items in turn writes what encoding each run writes.
proof fn lemma_encode_all_concat<T: Encode>(p: Seq<T>, q: Seq<T>)
    ensures
        encode_all(p + q) == encode_all(p) + encode_all(q),
    decreases q.len(),
{
    if q.len() == 0 {
        assert(p + q =~= p);
        assert(encode_all(p) + encode_all(q) =~= encode_all(p));
    } else {
        lemma_encode_all_concat(p, q.drop_last());
        assert((p + q).drop_last() =~= p + q.drop_last());
        assert((p + q).last() == q.last());
        assert(encode_all(p + q) =~= encode_all(p) + encode_all(q));
    }
}

/// The items from position `k` on are written as the item at `k`, then the
/// items after it.
proof fn lemma_encode_all_skip<T: Encode>(v: Seq<T>, k: int)
    requires
        0 <= k < v.len(),
    ensures
        encode_all(v.skip(k)) == v[k].spec_encode() + encode_all(v.skip(k + 1)),
{
    assert(v.skip(k) =~= seq![v[k]] + v.skip(k + 1));
    lemma_encode_all_concat(seq![v[k]], v.skip(k + 1));
    assert(seq![v[k]].drop_last() =~= Seq::<T>::empty());
    assert(encode_all(Seq::<T>::empty()) =~= Seq::<u8>::empty());
    assert(encode_all(seq![v[k]]) =~= v[k].spec_encode());
}

/// Decoding nested items one after another from the bytes of `v`, where the
/// nesting budget allows one more level, reads the items of `v` in order:
/// after `k` of them the state has moved past the bytes of the first `k`.
proof fn lemma_items_read_back<T: Encode + Decode>(
    v: Seq<T>,
    tail: Seq<u8>,
    s: DecodeState,
    states: Seq<DecodeState>,
    items: Seq<T>,
    k: int,
)
    requires
        reads_back_what_it_writes::<T>(),
        s.rest == encode_all(v) + tail,
        items_chain::<T>(states, items),
        states[0] == s,
        items.len() <= v.len(),
        sat_add(s.depth, 1) <= s.limits.max_decode_depth,
        0 <= k <= items.len(),
    ensures
        states[k] == (DecodeState { rest: encode_all(v.skip(k)) + tail, ..s }),
        forall|j: int| 0 <= j < k ==> items[j] == v[j],
    decreases k,
{
    if k == 0 {
        assert(v.skip(0) =~= v);
        assert(states[0] == (DecodeState { rest: encode_all(v.skip(0)) + tail, ..s }));
    } else {
        let i = k - 1;
        lemma_items_read_back(v, tail, s, states, items, i);
        let before = states[i];
        assert(decode_step::<T>(states[i], Ok(items[i]), states[i + 1]));
        assert(i + 1 == k);
        let entered = sat_add(before.depth, 1);
        let inner = choose|inner: DecodeState|
            T::decodes(before.with_depth(entered), Ok(items[i]), inner) && states[k]
                == inner.with_depth(before.depth);
        lemma_encode_all_skip(v, i);
        let rest_tail = encode_all(v.skip(k)) + tail;
        assert(before.with_depth(entered).rest == v[i].spec_encode() + rest_tail);
        assert(T::decodes(before.with_depth(entered), Ok(items[i]), inner));
        assert(Ok::<T, DecodeError>(items[i]) == Ok::<T, DecodeError>(v[i]));
        assert(before.with_depth(entered).advance(v[i].spec_encode().len() as int).rest =~= rest_tail);
    }
}

/// A run of nested items read back within the budgets cannot fail before
/// all of them are read.
proof fn lemma_items_cannot_fail<T: Encode + Decode>(
    v: Seq<T>,
    tail: Seq<u8>,
    s: DecodeState,
    e: DecodeError,
    after: DecodeState,
)
    requires
        reads_back_what_it_writes::<T>(),
        s.rest == encode_all(v) + tail,
        v.len() <= usize::MAX,
        sat_add(s.depth, 1) <= s.limits.max_decode_depth,
    ensures
        !items_fail::<T>(s, v.len() as usize, e, after),
{
    if !items_fail::<T>(s, v.len() as usize, e, after) {
        return;
    }
    let (items, mid) = choose|items: Seq<T>, mid: DecodeState|
        items.len() < v.len() && items_decode(s, items, mid) && decode_step::<T>(mid, Err(e), after);
    let states = choose|states: Seq<DecodeState>|
        items_chain(states, items) && states[0] == s && states.last() == mid;
    let k = items.len() as int;
    lemma_items_read_back(v, tail, s, states, items, k);
    lemma_encode_all_skip(v, k);
    let entered = sat_add(mid.depth, 1);
    let inner = choose|inner: DecodeState|
        T::decodes(mid.with_depth(entered), Err(e), inner) && after == inner.with_depth(mid.depth);
    let rest_tail = encode_all(v.skip(k + 1)) + tail;
    assert(mid.with_depth(entered).rest == v[k].spec_encode() + rest_tail);
    assert(T::decodes(mid.with_depth(entered), Err(e), inner));
}

/// Decoding what `Vec::<T>::encode` wrote (the item count as a
/// variable-length integer, then each item), for items that read back what
/// they write and within the collection, element, memory and nesting budgets,
/// gives the same items back and leaves exactly what followed them, unless
/// the allocator refuses the memory.
pub proof fn vec_roundtrip<T: Encode + Decode>(
    v: Seq<T>,
    tail: Seq<u8>,
    before: DecodeState,
    result: Result<Vec<T>, DecodeError>,
    after: DecodeState,
)
    requires
        reads_back_what_it_writes::<T>(),
        v.len() <= i32::MAX,
        before.rest == VarI32(v.len() as i32).spec_encode() + encode_all(v) + tail,
        v.len() <= before.limits.max_collection_elements,
        before.elements + v.len() <= before.limits.max_total_elements,
        before.allocated + v.len() * vstd::layout::size_of::<T>() <= before.limits.max_allocation_bytes,
        before.depth + 1 <= before.limits.max_decode_depth,
        Vec::<T>::decodes(before, result, after),
    ensures
        result matches Ok(items) ==> items@ == v && after.rest == tail,
        result matches Err(e) ==> e == (DecodeError::AllocationFailed {
            requested: (v.len() * vstd::layout::size_of::<T>()) as usize,
        }),
{
    let n = v.len() as i32;
    let prefix = VarI32(n).spec_encode();
    let header_after = before.advance(var_consumed(before.rest, 5) as int);
    let header = match spec_var_int(before.rest) {
        Ok(x) => Ok(VarI32(x)),
        Err(e) => Err::<VarI32, DecodeError>(e),
    };
    assert(before.rest =~= prefix + (encode_all(v) + tail));
    var_i32_roundtrip(n, encode_all(v) + tail, before, header, header_after);
    let mid = header_after;
    let len = v.len() as usize;
    let (c1, s1) = spec_charge_elements(mid, len);
    let (c2, s2) = spec_charge_allocation(s1, (len * vstd::layout::size_of::<T>()) as usize);
    assert(s2 == (DecodeState { rest: encode_all(v) + tail, ..s2 }));
    match result {
        Ok(bytes) => {
            let items = bytes@;
            let states = choose|states: Seq<DecodeState>|
                items_chain(states, items) && states[0] == s2 && states.last() == after;
            lemma_items_read_back(v, tail, s2, states, items, items.len() as int);
            assert(items =~= v);
            assert(v.skip(v.len() as int) =~= Seq::<T>::empty());
            assert(after.rest =~= tail);
        },
        Err(e) => {
            lemma_items_cannot_fail(v, tail, s2, e, after);
        },
    }
}

/// Reading back as many items as `encode_fixed_length_vec` wrote, for items
/// that read back what they write and within the element, memory and
/// nesting budgets, gives the same items and leaves exactly what followed
/// them, unless the allocator refuses the memory.
pub proof fn fixed_vec_roundtrip<T: Encode + Decode>(
    v: Seq<T>,
    tail: Seq<u8>,
    before: DecodeState,
    result: Result<Seq<T>, DecodeError>,
    after: DecodeState,
)
    requires
        reads_back_what_it_writes::<T>(),
        v.len() <= usize::MAX,
        before.rest == encode_all(v) + tail,
        before.elements + v.len() <= before.limits.max_total_elements,
        before.allocated + v.len() * vstd::layout::size_of::<T>() <= before.limits.max_allocation_bytes,
        before.depth + 1 <= before.limits.max_decode_depth,
        fixed_vec_decodes::<T>(v.len() as usize, before, result, after),
    ensures
        result matches Ok(items) ==> items == v && after.rest == tail,
        result matches Err(e) ==> e == (DecodeError::AllocationFailed {
            requested: (v.len() * vstd::layout::size_of::<T>()) as usize,
        }),
{
    let len = v.len() as usize;
    let (c1, s1) = spec_charge_elements(before, len);
    let (c2, s2) = spec_charge_allocation(s1, (len * vstd::layout::size_of::<T>()) as usize);
    assert(s2 == (DecodeState { rest: encode_all(v) + tail, ..s2 }));
    match result {
        Ok(items) => {
            let states = choose|states: Seq<DecodeState>|
                items_chain(states, items) && states[0] == s2 && states.last() == after;
            lemma_items_read_back(v, tail, s2, states, items, items.len() as int);
            assert(items =~= v);
            assert(v.skip(v.len() as int) =~= Seq::<T>::empty());
            assert(after.rest =~= tail);
        },
        Err(e) => {
            lemma_items_cannot_fail(v, tail, s2, e, after);
        },
    }
}

/// Bytes read back what they write.
pub proof fn u8_reads_back_what_it_writes()
    ensures
        reads_back_what_it_writes::<u8>(),
{
    assert forall|x: u8, tail: Seq<u8>, s: DecodeState, r: Result<u8, DecodeError>, a: DecodeState|
        #![trigger u8::decodes(s, r, a), x.spec_encode() + tail]
        s.rest == x.spec_encode() + tail && u8::decodes(s, r, a) implies r == Ok::<u8, DecodeError>(x)
            && a == s.advance(x.spec_encode().len() as int) by {
        u8_roundtrip(x, tail, s, r, a);
    }
}

/// Booleans read back what they write.
pub proof fn bool_reads_back_what_it_writes()
    ensures
        reads_back_what_it_writes::<bool>(),
{
    assert forall|x: bool, tail: Seq<u8>, s: DecodeState, r: Result<bool, DecodeError>, a: DecodeState|
        #![trigger bool::decodes(s, r, a), x.spec_encode() + tail]
        s.rest == x.spec_encode() + tail && bool::decodes(s, r, a) implies r == Ok::<bool, DecodeError>(x)
            && a == s.advance(x.spec_encode().len() as int) by {
        bool_roundtrip(x, tail, s, r, a);
    }
}

/// 32-bit integers read back what they write.
pub proof fn i32_reads_back_what_it_writes()
    ensures
        reads_back_what_it_writes::<i32>(),
{
    assert forall|x: i32, tail: Seq<u8>, s: DecodeState, r: Result<i32, DecodeError>, a: DecodeState|
        #![trigger i32::decodes(s, r, a), x.spec_encode() + tail]
        s.rest == x.spec_encode() + tail && i32::decodes(s, r, a) implies r == Ok::<i32, DecodeError>(x)
            && a == s.advance(x.spec_encode().len() as int) by {
        i32_roundtrip(x, tail, s, r, a);
        lemma_be_bytes_len((x as u32) as nat, 4);
    }
}

/// 16-bit unsigned integers read back what they write.
pub proof fn u16_reads_back_what_it_writes()
    ensures
        reads_back_what_it_writes::<u16>(),
{
    assert forall|x: u16, tail: Seq<u8>, s: DecodeState, r: Result<u16, DecodeError>, a: DecodeState|
        #![trigger u16::decodes(s, r, a), x.spec_encode() + tail]
        s.rest == x.spec_encode() + tail && u16::decodes(s, r, a) implies r == Ok::<u16, DecodeError>(x)
            && a == s.advance(x.spec_encode().len() as int) by {
        u16_roundtrip(x, tail, s, r, a);
        lemma_be_bytes_len(x as nat, 2);
    }
}

/// 32-bit unsigned integers read back what they write.
pub proof fn u32_reads_back_what_it_writes()
    ensures
        reads_back_what_it_writes::<u32>(),
{
    assert forall|x: u32, tail: Seq<u8>, s: DecodeState, r: Result<u32, DecodeError>, a: DecodeState|
        #![trigger u32::decodes(s, r, a), x.spec_encode() + tail]
        s.rest == x.spec_encode() + tail && u32::decodes(s, r, a) implies r == Ok::<u32, DecodeError>(x)
            && a == s.advance(x.spec_encode().len() as int) by {
        u32_roundtrip(x, tail, s, r, a);
        lemma_be_bytes_len(x as nat, 4);
    }
}

/// 64-bit unsigned integers read back what they write.
pub proof fn u64_reads_back_what_it_writes()
    ensures
        reads_back_what_it_writes::<u64>(),
{
    assert forall|x: u64, tail: Seq<u8>, s: DecodeState, r: Result<u64, DecodeError>, a: DecodeState|
        #![trigger u64::decodes(s, r, a), x.spec_encode() + tail]
        s.rest == x.spec_encode() + tail && u64::decodes(s, r, a) implies r == Ok::<u64, DecodeError>(x)
            && a == s.advance(x.spec_encode().len() as int) by {
        u64_roundtrip(x, tail, s, r, a);
        lemma_be_bytes_len(x as nat, 8);
    }
}

/// 64-bit integers read back what they write.
pub proof fn i64_reads_back_what_it_writes()
    ensures
        reads_back_what_it_writes::<i64>(),
{
    assert forall|x: i64, tail: Seq<u8>, s: DecodeState, r: Result<i64, DecodeError>, a: DecodeState|
        #![trigger i64::decodes(s, r, a), x.spec_encode() + tail]
        s.rest == x.spec_encode() + tail && i64::decodes(s, r, a) implies r == Ok::<i64, DecodeError>(x)
            && a == s.advance(x.spec_encode().len() as int) by {
        i64_roundtrip(x, tail, s, r, a);
        lemma_be_bytes_len((x as u64) as nat, 8);
    }
}

/// Variable-length 32-bit integers read back what they write.
pub proof fn var_i32_reads_back_what_it_writes()
    ensures
        reads_back_what_it_writes::<VarI32>(),
{
    assert forall|x: VarI32, tail: Seq<u8>, s: DecodeState, r: Result<VarI32, DecodeError>, a: DecodeState|
        #![trigger VarI32::decodes(s, r, a), x.spec_encode() + tail]
        s.rest == x.spec_encode() + tail && VarI32::decodes(s, r, a) implies r == Ok::<VarI32, DecodeError>(x)
            && a == s.advance(x.spec_encode().len() as int) by {
        var_i32_roundtrip(x.0, tail, s, r, a);
    }
}

/// Variable-length 64-bit integers read back what they write.
pub proof fn var_i64_reads_back_what_it_writes()
    ensures
        reads_back_what_it_writes::<VarI64>(),
{
    assert forall|x: VarI64, tail: Seq<u8>, s: DecodeState, r: Result<VarI64, DecodeError>, a: DecodeState|
        #![trigger VarI64::decodes(s, r, a), x.spec_encode() + tail]
        s.rest == x.spec_encode() + tail && VarI64::decodes(s, r, a) implies r == Ok::<VarI64, DecodeError>(x)
            && a == s.advance(x.spec_encode().len() as int) by {
        var_i64_roundtrip(x.0, tail, s, r, a);
    }
}

/// A collection whose announced count is negative or beyond the collection
/// budget is refused right after its count is read, before any element or
/// memory is charged for it.
pub proof fn oversized_collection_is_refused<T: Decode>(
    count: i32,
    before: DecodeState,
    result: Result<Vec<T>, DecodeError>,
    after: DecodeState,
)
    requires
        spec_var_int(before.rest) == Ok::<i32, DecodeError>(count),
        count < 0 || count > before.limits.max_collection_elements,
        Vec::<T>::decodes(before, result, after),
    ensures
        after.elements == before.elements,
        after.allocated == before.allocated,
        count < 0 ==> result == Err::<Vec<T>, DecodeError>(DecodeError::InvalidLength),
        count >= 0 ==> result == Err::<Vec<T>, DecodeError>(
            DecodeError::LimitExceeded {
                kind: LimitKind::CollectionElements,
                requested: count as usize,
                limit: before.limits.max_collection_elements,
            },
        ),
{
}

} // verus!
