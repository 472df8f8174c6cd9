use vstd::prelude::*;

use crate::error::{DecodeError, LimitKind};

verus! {

/// Budgets that bound what a single decode may read, allocate or recurse into.
#[derive(Debug, Clone, Copy, PartialEq, Eq)]
pub struct DecodeLimits {
    pub max_string_bytes: usize,
    pub max_collection_elements: usize,
    pub max_total_elements: usize,
    pub max_allocation_bytes: usize,
    pub max_remaining_bytes: usize,
    pub max_nbt_bytes: usize,
    pub max_nbt_depth: usize,
    pub max_decode_depth: usize,
}

/// The budgets a decoder starts with when none are given.
pub open spec fn default_limits() -> DecodeLimits {
    DecodeLimits {
        max_string_bytes: 0x10_0000,
        max_collection_elements: 0x10_0000,
        max_total_elements: 0x40_0000,
        max_allocation_bytes: 0x400_0000,
        max_remaining_bytes: 0x20_0000,
        max_nbt_bytes: 0x20_0000,
        max_nbt_depth: 512,
        max_decode_depth: 64,
    }
}

impl Default for DecodeLimits {
    fn default() -> (limits: Self)
        ensures
            limits == default_limits(),
    {
        DecodeLimits {
            max_string_bytes: 0x10_0000,
            max_collection_elements: 0x10_0000,
            max_total_elements: 0x40_0000,
            max_allocation_bytes: 0x400_0000,
            max_remaining_bytes: 0x20_0000,
            max_nbt_bytes: 0x20_0000,
            max_nbt_depth: 512,
            max_decode_depth: 64,
        }
    }
}

/// Addition that stops at `usize::MAX` instead of wrapping.
pub open spec fn sat_add(a: usize, b: usize) -> usize {
    if a + b > usize::MAX {
        usize::MAX
    } else {
        (a + b) as usize
    }
}

/// The abstract state of a decoder: the bytes not read yet, its budgets,
/// what has been charged against them, and how deeply decodes are nested.
pub ghost struct DecodeState {
    pub rest: Seq<u8>,
    pub limits: DecodeLimits,
    pub elements: usize,
    pub allocated: usize,
    pub depth: usize,
}

impl DecodeState {
    /// A fresh decoder over `input`.
    pub open spec fn start(input: Seq<u8>, limits: DecodeLimits) -> DecodeState {
        DecodeState { rest: input, limits, elements: 0, allocated: 0, depth: 0 }
    }

    /// The state after the first `n` remaining bytes have been read.
    pub open spec fn advance(self, n: int) -> DecodeState {
        DecodeState { rest: self.rest.subrange(n, self.rest.len() as int), ..self }
    }

    pub open spec fn with_depth(self, depth: usize) -> DecodeState {
        DecodeState { depth, ..self }
    }

    pub open spec fn with_elements(self, elements: usize) -> DecodeState {
        DecodeState { elements, ..self }
    }

    pub open spec fn with_allocated(self, allocated: usize) -> DecodeState {
        DecodeState { allocated, ..self }
    }
}

/// Reading `a` bytes and then `b` more is reading `a + b` bytes.
pub proof fn lemma_advance_twice(s: DecodeState, a: int, b: int)
    requires
        0 <= a,
        0 <= b,
        a + b <= s.rest.len(),
    ensures
        s.advance(a).advance(b) == s.advance(a + b),
{
    assert(s.advance(a).advance(b).rest =~= s.advance(a + b).rest);
}

/// Reading nothing leaves the state as it was.
pub proof fn lemma_advance_zero(s: DecodeState)
    ensures
        s.advance(0) == s,
{
    assert(s.advance(0).rest =~= s.rest);
}

/// Outcome of reading `n` raw bytes.
pub open spec fn spec_take(s: DecodeState, n: int) -> (Result<Seq<u8>, DecodeError>, DecodeState) {
    if n > s.rest.len() {
        (Err(DecodeError::UnexpectedEof), s)
    } else {
        (Ok(s.rest.subrange(0, n)), s.advance(n))
    }
}

/// Outcome of charging `n` elements against the total-elements budget.
pub open spec fn spec_charge_elements(s: DecodeState, n: usize) -> (Result<(), DecodeError>, DecodeState) {
    let total = sat_add(s.elements, n);
    if total > s.limits.max_total_elements {
        (
            Err(
                DecodeError::LimitExceeded {
                    kind: LimitKind::TotalElements,
                    requested: total,
                    limit: s.limits.max_total_elements,
                },
            ),
            s,
        )
    } else {
        (Ok(()), s.with_elements(total))
    }
}

/// Outcome of charging `n` bytes against the allocation budget.
pub open spec fn spec_charge_allocation(s: DecodeState, n: usize) -> (Result<(), DecodeError>, DecodeState) {
    let total = sat_add(s.allocated, n);
    if total > s.limits.max_allocation_bytes {
        (
            Err(
                DecodeError::LimitExceeded {
                    kind: LimitKind::AllocationBytes,
                    requested: total,
                    limit: s.limits.max_allocation_bytes,
                },
            ),
            s,
        )
    } else {
        (Ok(()), s.with_allocated(total))
    }
}

/// Outcome of checking a length prefix `count` against `limit`.
pub open spec fn spec_checked_len(count: i32, kind: LimitKind, limit: usize) -> Result<usize, DecodeError> {
    if count < 0 {
        Err(DecodeError::InvalidLength)
    } else if count > limit {
        Err(DecodeError::LimitExceeded { kind, requested: count as usize, limit })
    } else {
        Ok(count as usize)
    }
}

/// A bounded reader over a byte slice.
pub struct Decoder<'a> {
    rest: &'a [u8],
    limits: DecodeLimits,
    elements: usize,
    allocated: usize,
    depth: usize,
}

impl<'a> View for Decoder<'a> {
    type V = DecodeState;

    closed spec fn view(&self) -> DecodeState {
        DecodeState {
            rest: self.rest@,
            limits: self.limits,
            elements: self.elements,
            allocated: self.allocated,
            depth: self.depth,
        }
    }
}

/// Types that can be written in the wire format.
///
/// An implementation that states which bytes it writes sets
/// `obeys_encode_spec` and gives them as `spec_encode`; every implementation
/// in this crate does. Implementations written elsewhere keep the defaults,
/// and nothing is then stated of what their `encode` writes.
pub trait Encode {
    /// Holds when `encode` appends exactly `spec_encode`.
    open spec fn obeys_encode_spec() -> bool {
        false
    }

    /// The bytes that `encode` appends for this value.
    open spec fn spec_encode(&self) -> Seq<u8> {
        Seq::empty()
    }

    fn encode(&self, buf: &mut Vec<u8>)
        ensures
            Self::obeys_encode_spec() ==> final(buf)@ == old(buf)@ + self.spec_encode(),
    ;
}

/// Types that can be read from the wire format.
pub trait Decode: Sized {
    /// Holds when decoding a value from `before` can give `result` and leave
    /// the decoder in state `after`. Every implementation in this crate states
    /// its outcome exactly; the default, for implementations written
    /// elsewhere, states nothing.
    open spec fn decodes(before: DecodeState, result: Result<Self, DecodeError>, after: DecodeState) -> bool {
        true
    }

    fn decode_with(decoder: &mut Decoder<'_>) -> (res: Result<Self, DecodeError>)
        ensures
            Self::decodes(old(decoder)@, res, final(decoder)@),
    ;

    /// Decodes one value from the front of `buf` with the default budgets and
    /// drops the bytes that were read from `buf`.
    fn decode(buf: &mut &[u8]) -> (res: Result<Self, DecodeError>)
        ensures
            exists|after: DecodeState|
                Self::decodes(DecodeState::start(old(buf)@, default_limits()), res, after)
                    && final(buf)@ == after.rest,
    {
        let mut decoder = Decoder::new(*buf, DecodeLimits::default());
        let res = Self::decode_with(&mut decoder);
        *buf = decoder.remaining();
        res
    }
}

/// Outcome of a nested decode of a `T`: refused when the nesting budget is
/// spent, otherwise whatever `T` decodes, with the nesting depth restored.
pub open spec fn decode_step<T: Decode>(
    before: DecodeState,
    result: Result<T, DecodeError>,
    after: DecodeState,
) -> bool {
    let entered = sat_add(before.depth, 1);
    if entered > before.limits.max_decode_depth {
        &&& result == Err::<T, DecodeError>(
            DecodeError::LimitExceeded {
                kind: LimitKind::DecodeDepth,
                requested: entered,
                limit: before.limits.max_decode_depth,
            },
        )
        &&& after == before
    } else {
        exists|inner: DecodeState|
            T::decodes(before.with_depth(entered), result, inner) && after == inner.with_depth(
                before.depth,
            )
    }
}

impl<'a> Decoder<'a> {
    pub fn new(input: &'a [u8], limits: DecodeLimits) -> (decoder: Self)
        ensures
            decoder@ == DecodeState::start(input@, limits),
    {
        Decoder { rest: input, limits, elements: 0, allocated: 0, depth: 0 }
    }

    /// The bytes not read yet.
    pub fn remaining(&self) -> (rest: &'a [u8])
        ensures
            rest@ == self@.rest,
    {
        self.rest
    }

    pub fn remaining_len(&self) -> (n: usize)
        ensures
            n == self@.rest.len(),
    {
        self.rest.len()
    }

    pub fn limits(&self) -> (limits: DecodeLimits)
        ensures
            limits == self@.limits,
    {
        self.limits
    }

    /// Reads the next `len` bytes.
    pub fn take(&mut self, len: usize) -> (res: Result<&'a [u8], DecodeError>)
        ensures
            ({
                let (r, s) = spec_take(old(self)@, len as int);
                &&& final(self)@ == s
                &&& match res {
                    Ok(bytes) => r == Ok::<Seq<u8>, DecodeError>(bytes@),
                    Err(e) => r == Err::<Seq<u8>, DecodeError>(e),
                }
            }),
    {
        if len > self.rest.len() {
            return Err(DecodeError::UnexpectedEof);
        }
        let (head, tail) = self.rest.split_at(len);
        self.rest = tail;
        Ok(head)
    }

    /// Charges `n` elements against the total-elements budget.
    pub fn charge_elements(&mut self, n: usize) -> (res: Result<(), DecodeError>)
        ensures
            (res, final(self)@) == spec_charge_elements(old(self)@, n),
    {
        let total = self.elements.saturating_add(n);
        if total > self.limits.max_total_elements {
            return Err(
                DecodeError::LimitExceeded {
                    kind: LimitKind::TotalElements,
                    requested: total,
                    limit: self.limits.max_total_elements,
                },
            );
        }
        self.elements = total;
        Ok(())
    }

    /// Charges `n` bytes against the allocation budget.
    pub fn charge_allocation(&mut self, n: usize) -> (res: Result<(), DecodeError>)
        ensures
            (res, final(self)@) == spec_charge_allocation(old(self)@, n),
    {
        let total = self.allocated.saturating_add(n);
        if total > self.limits.max_allocation_bytes {
            return Err(
                DecodeError::LimitExceeded {
                    kind: LimitKind::AllocationBytes,
                    requested: total,
                    limit: self.limits.max_allocation_bytes,
                },
            );
        }
        self.allocated = total;
        Ok(())
    }

    /// Checks a signed length prefix against `limit`.
    pub fn checked_len(&self, count: i32, kind: LimitKind, limit: usize) -> (res: Result<usize, DecodeError>)
        ensures
            res == spec_checked_len(count, kind, limit),
    {
        if count < 0 {
            return Err(DecodeError::InvalidLength);
        }
        let n = count as usize;
        if n > limit {
            return Err(DecodeError::LimitExceeded { kind, requested: n, limit });
        }
        Ok(n)
    }

    /// Decodes a nested `T`, bounded by the decode-depth budget.
    pub fn decode<T: Decode>(&mut self) -> (res: Result<T, DecodeError>)
        ensures
            decode_step::<T>(old(self)@, res, final(self)@),
    {
        let depth = self.depth;
        let entered = depth.saturating_add(1);
        if entered > self.limits.max_decode_depth {
            return Err(
                DecodeError::LimitExceeded {
                    kind: LimitKind::DecodeDepth,
                    requested: entered,
                    limit: self.limits.max_decode_depth,
                },
            );
        }
        self.depth = entered;
        let ghost before_inner = self@;
        let res = T::decode_with(self);
        let ghost inner = self@;
        self.depth = depth;
        assert(T::decodes(old(self)@.with_depth(entered), res, inner));
        assert(self@ == inner.with_depth(depth));
        res
    }
}

} // verus!
