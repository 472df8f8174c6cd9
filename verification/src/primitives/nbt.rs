use vstd::prelude::*;

use ussr_nbt::owned::Nbt;
use ussr_nbt::NbtReadError;

use crate::decoder::{
    sat_add, spec_charge_allocation, spec_charge_elements, spec_checked_len, spec_take, Decode,
    DecodeState, Decoder, Encode,
};
use crate::error::{DecodeError, LimitKind};
use crate::primitives::integers::read_be;
use crate::wire::{be_value, lemma_be_value_bound};

verus! {

#[verifier::external_type_specification]
#[verifier::external_body]
pub struct ExNbt(ussr_nbt::owned::Nbt);

#[verifier::external_type_specification]
#[verifier::external_body]
pub struct ExNbtReadError(ussr_nbt::NbtReadError);

/// What `Nbt::read` parses from a complete in-memory byte stream.
pub uninterp spec fn nbt_read(stream: Seq<u8>) -> Result<Nbt, NbtReadError>;

/// The bytes of the root name (`Nbt::name`) of a parsed NBT value.
pub uninterp spec fn nbt_root_name(nbt: Nbt) -> Seq<u8>;

/// What `Nbt::write` writes into an empty buffer, or `None` when it reports an
/// error.
pub uninterp spec fn nbt_write(nbt: Nbt) -> Option<Seq<u8>>;

/// `Nbt::read` from ussr_nbt, reading from the slice `stream`. The parse is a
/// function of the bytes alone and is named `nbt_read`. Its source shows two
/// facts that are stated here: a stream that does not begin with the compound
/// tag 0x0A is refused, and with the default options the root name is read
/// as a big-endian 16-bit length and that many bytes, so a stream that begins
/// with 0x0A 0x00 0x00 parses, if at all, to a value with an empty root name.
/// Nothing more about the parse is claimed. The decoder hands it only bytes
/// that the bounded scanner below has accepted; the data tables hand it the
/// stored bytes of a registry entry.
#[verifier::external_body]
pub(crate) fn read_nbt_stream(stream: &[u8]) -> (res: Result<Nbt, NbtReadError>)
    ensures
        res == nbt_read(stream@),
        (stream@.len() == 0 || stream@[0] != 0x0Au8) ==> res is Err,
        (stream@.len() >= 3 && stream@[0] == 0x0Au8 && stream@[1] == 0u8 && stream@[2] == 0u8 && res is Ok)
            ==> nbt_root_name(res->Ok_0).len() == 0,
{
    let mut reader = stream;
    Nbt::read(&mut reader)
}

/// `Nbt::write` from ussr_nbt, writing into a fresh vector. Its output is a
/// function of the value and is named `nbt_write`.
#[verifier::external_body]
fn write_nbt(nbt: &Nbt) -> (res: Option<Vec<u8>>)
    ensures
        match res {
            Some(bytes) => nbt_write(*nbt) == Some(bytes@),
            None => nbt_write(*nbt) is None,
        },
{
    let mut bytes = Vec::new();
    match nbt.write(&mut bytes) {
        Ok(()) => Some(bytes),
        Err(_) => None,
    }
}

/// The wire form of a written compound: the compound tag, then the payload
/// without the root name that `Nbt::write` puts after the tag.
pub open spec fn network_nbt(written: Seq<u8>) -> Seq<u8> {
    if written.len() > 3 {
        seq![0x0Au8] + written.subrange(3, written.len() as int)
    } else {
        seq![0x0Au8]
    }
}

impl Encode for Nbt {
    open spec fn obeys_encode_spec() -> bool {
        true
    }

    /// The compound tag and the payload, without the root name; nothing when
    /// the value cannot be written.
    open spec fn spec_encode(&self) -> Seq<u8> {
        match nbt_write(*self) {
            Some(written) => network_nbt(written),
            None => Seq::empty(),
        }
    }

    fn encode(&self, buf: &mut Vec<u8>) {
        if let Some(temp) = write_nbt(self) {
            buf.push(0x0A);
            if temp.len() > 3 {
                let mut i: usize = 3;
                let ghost start = buf@;
                while i < temp.len()
                    invariant
                        3 <= i <= temp@.len(),
                        buf@ == start + temp@.subrange(3, i as int),
                    decreases temp@.len() - i,
                {
                    buf.push(temp[i]);
                    assert(buf@ =~= start + temp@.subrange(3, i as int + 1));
                    i = i + 1;
                }
            }
            assert(buf@ =~= old(buf)@ + network_nbt(temp@));
        }
    }
}

// ---------------------------------------------------------------------------
// Bounded scanning of a network compound before it is handed to the parser
// ---------------------------------------------------------------------------

/// The outcome of one scanning step and the state it leaves.
pub type Scan = (Result<(), DecodeError>, DecodeState);

pub open spec fn unit_scan<T>(step: (Result<T, DecodeError>, DecodeState)) -> Scan {
    match step.0 {
        Ok(_) => (Ok(()), step.1),
        Err(e) => (Err(e), step.1),
    }
}

/// Reading `len` more NBT bytes: refused when the bytes read since the start
/// of the compound (whose input was `start_len` bytes long) would exceed the
/// NBT byte budget.
pub open spec fn spec_nbt_take(s: DecodeState, start_len: usize, len: usize) -> (Result<Seq<u8>, DecodeError>, DecodeState) {
    if start_len < s.rest.len() {
        (Err(DecodeError::InvalidLength), s)
    } else {
        let consumed = start_len - s.rest.len() + len;
        if consumed > usize::MAX {
            (Err(DecodeError::InvalidLength), s)
        } else if consumed > s.limits.max_nbt_bytes {
            (
                Err(
                    DecodeError::LimitExceeded {
                        kind: LimitKind::NbtBytes,
                        requested: consumed as usize,
                        limit: s.limits.max_nbt_bytes,
                    },
                ),
                s,
            )
        } else {
            spec_take(s, len as int)
        }
    }
}

pub open spec fn spec_nbt_i32(s: DecodeState, start_len: usize) -> (Result<i32, DecodeError>, DecodeState) {
    let (t, s1) = spec_nbt_take(s, start_len, 4);
    match t {
        Ok(bytes) => (Ok((be_value(bytes) as u32) as i32), s1),
        Err(e) => (Err(e), s1),
    }
}

pub open spec fn spec_check_nbt_depth(s: DecodeState, depth: usize) -> Result<(), DecodeError> {
    if depth > s.limits.max_nbt_depth {
        Err(
            DecodeError::LimitExceeded {
                kind: LimitKind::NbtDepth,
                requested: depth,
                limit: s.limits.max_nbt_depth,
            },
        )
    } else {
        Ok(())
    }
}

/// A string: a two-byte length, charged as memory, then that many bytes.
pub open spec fn spec_scan_string(s: DecodeState, start_len: usize) -> Scan {
    let (t, s1) = spec_nbt_take(s, start_len, 2);
    match t {
        Err(e) => (Err(e), s1),
        Ok(bytes) => {
            let len = be_value(bytes) as usize;
            let (c, s2) = spec_charge_allocation(s1, len);
            match c {
                Err(e) => (Err(e), s2),
                Ok(_) => unit_scan(spec_nbt_take(s2, start_len, len)),
            }
        },
    }
}

/// An array: a four-byte count, bounded and charged, then `count * width` bytes.
pub open spec fn spec_scan_array(s: DecodeState, start_len: usize, width: usize) -> Scan {
    let (t, s1) = spec_nbt_i32(s, start_len);
    match t {
        Err(e) => (Err(e), s1),
        Ok(raw) => match spec_checked_len(raw, LimitKind::CollectionElements, s1.limits.max_collection_elements) {
            Err(e) => (Err(e), s1),
            Ok(count) => {
                let (c, s2) = spec_charge_elements(s1, count);
                match c {
                    Err(e) => (Err(e), s2),
                    Ok(_) => if count * width > usize::MAX {
                        (Err(DecodeError::InvalidLength), s2)
                    } else {
                        let bytes = (count * width) as usize;
                        let (c3, s3) = spec_charge_allocation(s2, bytes);
                        match c3 {
                            Err(e) => (Err(e), s3),
                            Ok(_) => unit_scan(spec_nbt_take(s3, start_len, bytes)),
                        }
                    },
                }
            },
        },
    }
}

/// A compound payload at nesting `depth`: entries until an end tag.
/// `fuel` bounds the number of steps; enough is always given.
pub open spec fn spec_scan_compound(s: DecodeState, start_len: usize, depth: usize, fuel: nat) -> Scan
    decreases fuel, 0nat,
{
    if fuel == 0 {
        (Err(DecodeError::InvalidLength), s)
    } else {
        match spec_check_nbt_depth(s, depth) {
            Err(e) => (Err(e), s),
            Ok(_) => spec_scan_entries(s, start_len, depth, 0, (fuel - 1) as nat),
        }
    }
}

/// The rest of a compound after `entries` entries: each entry is a tag, a name
/// and a payload, counted against the collection and memory budgets.
pub open spec fn spec_scan_entries(s: DecodeState, start_len: usize, depth: usize, entries: usize, fuel: nat) -> Scan
    decreases fuel, 1nat,
{
    if fuel == 0 {
        (Err(DecodeError::InvalidLength), s)
    } else {
        let (t, s1) = spec_nbt_take(s, start_len, 1);
        match t {
            Err(e) => (Err(e), s1),
            Ok(tag_bytes) => {
                let tag = tag_bytes[0];
                if tag == 0 {
                    (Ok(()), s1)
                } else if entries + 1 > usize::MAX {
                    (Err(DecodeError::InvalidLength), s1)
                } else if entries + 1 > s1.limits.max_collection_elements {
                    (
                        Err(
                            DecodeError::LimitExceeded {
                                kind: LimitKind::CollectionElements,
                                requested: (entries + 1) as usize,
                                limit: s1.limits.max_collection_elements,
                            },
                        ),
                        s1,
                    )
                } else {
                    let (c2, s2) = spec_charge_elements(s1, 1);
                    match c2 {
                        Err(e) => (Err(e), s2),
                        Ok(_) => {
                            let (c3, s3) = spec_charge_allocation(s2, 64);
                            match c3 {
                                Err(e) => (Err(e), s3),
                                Ok(_) => {
                                    let (c4, s4) = spec_scan_string(s3, start_len);
                                    match c4 {
                                        Err(e) => (Err(e), s4),
                                        Ok(_) => {
                                            let (c5, s5) = spec_scan_payload(
                                                s4,
                                                start_len,
                                                tag,
                                                sat_add(depth, 1),
                                                (fuel - 1) as nat,
                                            );
                                            match c5 {
                                                Err(e) => (Err(e), s5),
                                                Ok(_) => spec_scan_entries(
                                                    s5,
                                                    start_len,
                                                    depth,
                                                    (entries + 1) as usize,
                                                    (fuel - 1) as nat,
                                                ),
                                            }
                                        },
                                    }
                                },
                            }
                        },
                    }
                }
            },
        }
    }
}

/// The payload of a tag with id `tag` at nesting `depth`.
pub open spec fn spec_scan_payload(s: DecodeState, start_len: usize, tag: u8, depth: usize, fuel: nat) -> Scan
    decreases fuel, 2nat,
{
    if fuel == 0 {
        (Err(DecodeError::InvalidLength), s)
    } else {
        match spec_check_nbt_depth(s, depth) {
            Err(e) => (Err(e), s),
            Ok(_) => if tag == 1 {
                unit_scan(spec_nbt_take(s, start_len, 1))
            } else if tag == 2 {
                unit_scan(spec_nbt_take(s, start_len, 2))
            } else if tag == 3 || tag == 5 {
                unit_scan(spec_nbt_take(s, start_len, 4))
            } else if tag == 4 || tag == 6 {
                unit_scan(spec_nbt_take(s, start_len, 8))
            } else if tag == 7 {
                spec_scan_array(s, start_len, 1)
            } else if tag == 8 {
                spec_scan_string(s, start_len)
            } else if tag == 9 {
                spec_scan_list(s, start_len, depth, (fuel - 1) as nat)
            } else if tag == 10 {
                spec_scan_compound(s, start_len, sat_add(depth, 1), (fuel - 1) as nat)
            } else if tag == 11 {
                spec_scan_array(s, start_len, 4)
            } else if tag == 12 {
                spec_scan_array(s, start_len, 8)
            } else {
                (Err(DecodeError::InvalidLength), s)
            },
        }
    }
}

/// A list: an element tag and a four-byte count, bounded and charged, then the
/// elements' payloads one level deeper.
pub open spec fn spec_scan_list(s: DecodeState, start_len: usize, depth: usize, fuel: nat) -> Scan
    decreases fuel, 1nat,
{
    let (t, s1) = spec_nbt_take(s, start_len, 1);
    match t {
        Err(e) => (Err(e), s1),
        Ok(tag_bytes) => {
            let element_tag = tag_bytes[0];
            let (r, s2) = spec_nbt_i32(s1, start_len);
            match r {
                Err(e) => (Err(e), s2),
                Ok(raw) => match spec_checked_len(
                    raw,
                    LimitKind::CollectionElements,
                    s2.limits.max_collection_elements,
                ) {
                    Err(e) => (Err(e), s2),
                    Ok(count) => if element_tag == 0 && count != 0 {
                        (Err(DecodeError::InvalidLength), s2)
                    } else {
                        let (c3, s3) = spec_charge_elements(s2, count);
                        match c3 {
                            Err(e) => (Err(e), s3),
                            Ok(_) => if count * 32 > usize::MAX {
                                (Err(DecodeError::InvalidLength), s3)
                            } else {
                                let (c4, s4) = spec_charge_allocation(s3, (count * 32) as usize);
                                match c4 {
                                    Err(e) => (Err(e), s4),
                                    Ok(_) => spec_scan_elements(
                                        s4,
                                        start_len,
                                        element_tag,
                                        sat_add(depth, 1),
                                        count,
                                        fuel,
                                    ),
                                }
                            },
                        }
                    },
                },
            }
        },
    }
}

/// `remaining` more list elements, each a payload with tag id `tag`.
pub open spec fn spec_scan_elements(
    s: DecodeState,
    start_len: usize,
    tag: u8,
    depth: usize,
    remaining: usize,
    fuel: nat,
) -> Scan
    decreases fuel, 0nat,
{
    if remaining == 0 {
        (Ok(()), s)
    } else if fuel == 0 {
        (Err(DecodeError::InvalidLength), s)
    } else {
        let (c, s1) = spec_scan_payload(s, start_len, tag, depth, (fuel - 1) as nat);
        match c {
            Err(e) => (Err(e), s1),
            Ok(_) => spec_scan_elements(s1, start_len, tag, depth, (remaining - 1) as usize, (fuel - 1) as nat),
        }
    }
}

fn nbt_take<'a>(decoder: &mut Decoder<'a>, start_len: usize, len: usize) -> (res: Result<&'a [u8], DecodeError>)
    ensures
        ({
            let (t, s) = spec_nbt_take(old(decoder)@, start_len, len);
            &&& final(decoder)@ == s
            &&& match res {
                Ok(bytes) => t == Ok::<Seq<u8>, DecodeError>(bytes@),
                Err(e) => t == Err::<Seq<u8>, DecodeError>(e),
            }
        }),
        final(decoder)@.rest.len() <= old(decoder)@.rest.len(),
        res is Ok ==> final(decoder)@.rest.len() == old(decoder)@.rest.len() - len,
        final(decoder)@.limits == old(decoder)@.limits,
{
    let remaining = decoder.remaining_len();
    if start_len < remaining {
        return Err(DecodeError::InvalidLength);
    }
    let consumed = match (start_len - remaining).checked_add(len) {
        Some(c) => c,
        None => return Err(DecodeError::InvalidLength),
    };
    let limits = decoder.limits();
    if consumed > limits.max_nbt_bytes {
        return Err(
            DecodeError::LimitExceeded {
                kind: LimitKind::NbtBytes,
                requested: consumed,
                limit: limits.max_nbt_bytes,
            },
        );
    }
    decoder.take(len)
}

fn nbt_i32(decoder: &mut Decoder<'_>, start_len: usize) -> (res: Result<i32, DecodeError>)
    ensures
        (res, final(decoder)@) == spec_nbt_i32(old(decoder)@, start_len),
        final(decoder)@.rest.len() <= old(decoder)@.rest.len(),
        res is Ok ==> final(decoder)@.rest.len() == old(decoder)@.rest.len() - 4,
        final(decoder)@.limits == old(decoder)@.limits,
{
    let bytes = nbt_take(decoder, start_len, 4)?;
    proof {
        lemma_be_value_bound(bytes@);
        assert(crate::wire::pow256(4) == 0x1_0000_0000) by {
            assert(crate::wire::pow256(0) == 1);
            assert(crate::wire::pow256(1) == 0x100);
            assert(crate::wire::pow256(2) == 0x1_0000);
            assert(crate::wire::pow256(3) == 0x100_0000);
        }
    }
    let v = read_be(bytes);
    Ok((v as u32) as i32)
}

fn scan_string(decoder: &mut Decoder<'_>, start_len: usize) -> (res: Result<(), DecodeError>)
    ensures
        (res, final(decoder)@) == spec_scan_string(old(decoder)@, start_len),
        final(decoder)@.rest.len() <= old(decoder)@.rest.len(),
        res is Ok ==> final(decoder)@.rest.len() < old(decoder)@.rest.len(),
        final(decoder)@.limits == old(decoder)@.limits,
{
    let bytes = nbt_take(decoder, start_len, 2)?;
    proof {
        lemma_be_value_bound(bytes@);
        assert(crate::wire::pow256(2) == 0x1_0000) by {
            assert(crate::wire::pow256(0) == 1);
            assert(crate::wire::pow256(1) == 0x100);
        }
    }
    let len = read_be(bytes) as usize;
    decoder.charge_allocation(len)?;
    nbt_take(decoder, start_len, len)?;
    Ok(())
}

fn checked_nbt_count(decoder: &Decoder<'_>, count: i32) -> (res: Result<usize, DecodeError>)
    ensures
        res == spec_checked_len(count, LimitKind::CollectionElements, decoder@.limits.max_collection_elements),
{
    let limits = decoder.limits();
    decoder.checked_len(count, LimitKind::CollectionElements, limits.max_collection_elements)
}

fn check_nbt_depth(decoder: &Decoder<'_>, depth: usize) -> (res: Result<(), DecodeError>)
    ensures
        res == spec_check_nbt_depth(decoder@, depth),
{
    let limits = decoder.limits();
    if depth > limits.max_nbt_depth {
        return Err(
            DecodeError::LimitExceeded {
                kind: LimitKind::NbtDepth,
                requested: depth,
                limit: limits.max_nbt_depth,
            },
        );
    }
    Ok(())
}

fn scan_array(decoder: &mut Decoder<'_>, start_len: usize, width: usize) -> (res: Result<(), DecodeError>)
    ensures
        (res, final(decoder)@) == spec_scan_array(old(decoder)@, start_len, width),
        final(decoder)@.rest.len() <= old(decoder)@.rest.len(),
        res is Ok ==> final(decoder)@.rest.len() < old(decoder)@.rest.len(),
        final(decoder)@.limits == old(decoder)@.limits,
{
    let raw_count = nbt_i32(decoder, start_len)?;
    let count = checked_nbt_count(decoder, raw_count)?;
    decoder.charge_elements(count)?;
    let bytes = match count.checked_mul(width) {
        Some(b) => b,
        None => return Err(DecodeError::InvalidLength),
    };
    decoder.charge_allocation(bytes)?;
    nbt_take(decoder, start_len, bytes)?;
    Ok(())
}

fn scan_compound(decoder: &mut Decoder<'_>, start_len: usize, depth: usize, Ghost(fuel): Ghost<nat>) -> (res: Result<(), DecodeError>)
    requires
        fuel >= old(decoder)@.rest.len() + 2,
    ensures
        (res, final(decoder)@) == spec_scan_compound(old(decoder)@, start_len, depth, fuel),
        final(decoder)@.rest.len() <= old(decoder)@.rest.len(),
        res is Ok ==> final(decoder)@.rest.len() < old(decoder)@.rest.len(),
        final(decoder)@.limits == old(decoder)@.limits,
    decreases fuel, 0nat,
{
    check_nbt_depth(decoder, depth)?;
    let mut entries: usize = 0;
    let ghost mut f: nat = (fuel - 1) as nat;
    loop
        invariant
            spec_scan_entries(decoder@, start_len, depth, entries, f) == spec_scan_compound(
                old(decoder)@,
                start_len,
                depth,
                fuel,
            ),
            f >= decoder@.rest.len() + 1,
            f < fuel,
            decoder@.rest.len() <= old(decoder)@.rest.len(),
            decoder@.limits == old(decoder)@.limits,
        decreases f,
    {
        let tag = nbt_take(decoder, start_len, 1)?[0];
        if tag == 0 {
            return Ok(());
        }
        entries = match entries.checked_add(1) {
            Some(n) => n,
            None => return Err(DecodeError::InvalidLength),
        };
        let limits = decoder.limits();
        if entries > limits.max_collection_elements {
            return Err(
                DecodeError::LimitExceeded {
                    kind: LimitKind::CollectionElements,
                    requested: entries,
                    limit: limits.max_collection_elements,
                },
            );
        }
        decoder.charge_elements(1)?;
        decoder.charge_allocation(64)?;
        scan_string(decoder, start_len)?;
        scan_payload(decoder, start_len, tag, depth.saturating_add(1), Ghost((f - 1) as nat))?;
        proof {
            f = (f - 1) as nat;
        }
    }
}

#[verifier::loop_isolation(false)]
fn scan_payload(decoder: &mut Decoder<'_>, start_len: usize, tag: u8, depth: usize, Ghost(fuel): Ghost<nat>) -> (res: Result<(), DecodeError>)
    requires
        fuel >= old(decoder)@.rest.len() + 3,
    ensures
        (res, final(decoder)@) == spec_scan_payload(old(decoder)@, start_len, tag, depth, fuel),
        final(decoder)@.rest.len() <= old(decoder)@.rest.len(),
        res is Ok ==> final(decoder)@.rest.len() < old(decoder)@.rest.len(),
        final(decoder)@.limits == old(decoder)@.limits,
    decreases fuel, 1nat,
{
    check_nbt_depth(decoder, depth)?;
    if tag == 1 {
        nbt_take(decoder, start_len, 1)?;
    } else if tag == 2 {
        nbt_take(decoder, start_len, 2)?;
    } else if tag == 3 || tag == 5 {
        nbt_take(decoder, start_len, 4)?;
    } else if tag == 4 || tag == 6 {
        nbt_take(decoder, start_len, 8)?;
    } else if tag == 7 {
        scan_array(decoder, start_len, 1)?;
    } else if tag == 8 {
        scan_string(decoder, start_len)?;
    } else if tag == 9 {
        let element_tag = nbt_take(decoder, start_len, 1)?[0];
        let raw_count = nbt_i32(decoder, start_len)?;
        let count = checked_nbt_count(decoder, raw_count)?;
        if element_tag == 0 && count != 0 {
            return Err(DecodeError::InvalidLength);
        }
        decoder.charge_elements(count)?;
        let allocation = match count.checked_mul(32) {
            Some(a) => a,
            None => return Err(DecodeError::InvalidLength),
        };
        decoder.charge_allocation(allocation)?;
        let element_depth = depth.saturating_add(1);
        let ghost header_end = decoder@;
        let ghost mut f: nat = (fuel - 1) as nat;
        let mut i: usize = 0;
        while i < count
            invariant
                i <= count,
                spec_scan_elements(decoder@, start_len, element_tag, element_depth, (count - i) as usize, f)
                    == spec_scan_payload(old(decoder)@, start_len, tag, depth, fuel),
                f + 1 <= fuel,
                f >= decoder@.rest.len() + 4,
                decoder@.rest.len() < old(decoder)@.rest.len(),
                decoder@.limits == old(decoder)@.limits,
            decreases count - i,
        {
            scan_payload(decoder, start_len, element_tag, element_depth, Ghost((f - 1) as nat))?;
            proof {
                f = (f - 1) as nat;
            }
            i = i + 1;
        }
    } else if tag == 10 {
        scan_compound(decoder, start_len, depth.saturating_add(1), Ghost((fuel - 1) as nat))?;
    } else if tag == 11 {
        scan_array(decoder, start_len, 4)?;
    } else if tag == 12 {
        scan_array(decoder, start_len, 8)?;
    } else {
        return Err(DecodeError::InvalidLength);
    }
    Ok(())
}

/// The stream the parser is given for the network bytes of a compound: the
/// compound tag and an empty root name in place of the leading tag.
pub open spec fn reader_stream(nbt_bytes: Seq<u8>) -> Seq<u8> {
    seq![0x0Au8, 0x00u8, 0x00u8] + nbt_bytes.subrange(1, nbt_bytes.len() as int)
}

fn nbt_reader_stream(nbt_bytes: &[u8]) -> (stream: Vec<u8>)
    requires
        nbt_bytes@.len() >= 1,
    ensures
        stream@ == reader_stream(nbt_bytes@),
{
    let mut stream: Vec<u8> = Vec::new();
    stream.push(0x0A);
    stream.push(0x00);
    stream.push(0x00);
    let mut i: usize = 1;
    while i < nbt_bytes.len()
        invariant
            1 <= i <= nbt_bytes@.len(),
            stream@ == seq![0x0Au8, 0x00u8, 0x00u8] + nbt_bytes@.subrange(1, i as int),
        decreases nbt_bytes@.len() - i,
    {
        stream.push(nbt_bytes[i]);
        assert(stream@ =~= seq![0x0Au8, 0x00u8, 0x00u8] + nbt_bytes@.subrange(1, i as int + 1));
        i = i + 1;
    }
    stream
}

impl Decode for Nbt {
    /// The root compound tag, then the compound scanned within the NBT byte,
    /// depth, collection and memory budgets; only the scanned bytes are then
    /// parsed, with an empty root name, and a parse failure is reported as an
    /// invalid length.
    open spec fn decodes(before: DecodeState, result: Result<Nbt, DecodeError>, after: DecodeState) -> bool {
        let start_len = before.rest.len() as usize;
        let (t, s1) = spec_nbt_take(before, start_len, 1);
        match t {
            Err(e) => result == Err::<Nbt, DecodeError>(e) && after == s1,
            Ok(root) => if root[0] != 0x0A {
                result == Err::<Nbt, DecodeError>(DecodeError::InvalidLength) && after == s1
            } else {
                let (c, s2) = spec_scan_compound(s1, start_len, 0, (s1.rest.len() + 2) as nat);
                match c {
                    Err(e) => result == Err::<Nbt, DecodeError>(e) && after == s2,
                    Ok(_) => {
                        let scanned = before.rest.subrange(0, before.rest.len() - s2.rest.len());
                        &&& after == s2
                        &&& result == match nbt_read(reader_stream(scanned)) {
                            Ok(nbt) => Ok(nbt),
                            Err(_) => Err::<Nbt, DecodeError>(DecodeError::InvalidLength),
                        }
                        &&& result matches Ok(nbt) ==> nbt_root_name(nbt).len() == 0
                    },
                }
            },
        }
    }

    fn decode_with(decoder: &mut Decoder<'_>) -> (res: Result<Nbt, DecodeError>) {
        let input = decoder.remaining();
        let start_len = input.len();
        let root_tag = nbt_take(decoder, start_len, 1)?[0];
        if root_tag != 0x0A {
            return Err(DecodeError::InvalidLength);
        }
        scan_compound(decoder, start_len, 0, Ghost((decoder@.rest.len() + 2) as nat))?;
        let consumed = start_len - decoder.remaining_len();
        let nbt_bytes = vstd::slice::slice_subrange(input, 0, consumed);
        let stream = nbt_reader_stream(nbt_bytes);
        match read_nbt_stream(stream.as_slice()) {
            Ok(nbt) => Ok(nbt),
            Err(_) => Err(DecodeError::InvalidLength),
        }
    }
}

/// Within the NBT byte budget: no more than the budget has been read since the
/// compound began with `start_len` bytes of input.
pub open spec fn within_nbt_budget(s: DecodeState, start_len: usize) -> bool {
    s.rest.len() <= start_len && start_len - s.rest.len() <= s.limits.max_nbt_bytes
}

pub proof fn lemma_take_within_budget(s: DecodeState, start_len: usize, len: usize)
    requires
        within_nbt_budget(s, start_len),
    ensures
        within_nbt_budget(spec_nbt_take(s, start_len, len).1, start_len),
        spec_nbt_take(s, start_len, len).1.limits == s.limits,
{
}

pub proof fn lemma_string_within_budget(s: DecodeState, start_len: usize)
    requires
        within_nbt_budget(s, start_len),
    ensures
        within_nbt_budget(spec_scan_string(s, start_len).1, start_len),
        spec_scan_string(s, start_len).1.limits == s.limits,
{
    let (t, s1) = spec_nbt_take(s, start_len, 2);
    lemma_take_within_budget(s, start_len, 2);
    if let Ok(bytes) = t {
        let len = be_value(bytes) as usize;
        let (c, s2) = spec_charge_allocation(s1, len);
        lemma_take_within_budget(s2, start_len, len);
    }
}

pub proof fn lemma_array_within_budget(s: DecodeState, start_len: usize, width: usize)
    requires
        within_nbt_budget(s, start_len),
    ensures
        within_nbt_budget(spec_scan_array(s, start_len, width).1, start_len),
        spec_scan_array(s, start_len, width).1.limits == s.limits,
{
    lemma_take_within_budget(s, start_len, 4);
    let (t, s1) = spec_nbt_i32(s, start_len);
    if let Ok(raw) = t {
        if let Ok(count) = spec_checked_len(raw, LimitKind::CollectionElements, s1.limits.max_collection_elements) {
            let (c, s2) = spec_charge_elements(s1, count);
            if count * width <= usize::MAX {
                let bytes = (count * width) as usize;
                let (c3, s3) = spec_charge_allocation(s2, bytes);
                lemma_take_within_budget(s3, start_len, bytes);
            }
        }
    }
}

pub proof fn lemma_compound_within_budget(s: DecodeState, start_len: usize, depth: usize, fuel: nat)
    requires
        within_nbt_budget(s, start_len),
    ensures
        within_nbt_budget(spec_scan_compound(s, start_len, depth, fuel).1, start_len),
        spec_scan_compound(s, start_len, depth, fuel).1.limits == s.limits,
    decreases fuel, 0nat,
{
    if fuel > 0 {
        lemma_entries_within_budget(s, start_len, depth, 0, (fuel - 1) as nat);
    }
}

pub proof fn lemma_entries_within_budget(s: DecodeState, start_len: usize, depth: usize, entries: usize, fuel: nat)
    requires
        within_nbt_budget(s, start_len),
    ensures
        within_nbt_budget(spec_scan_entries(s, start_len, depth, entries, fuel).1, start_len),
        spec_scan_entries(s, start_len, depth, entries, fuel).1.limits == s.limits,
    decreases fuel, 1nat,
{
    if fuel > 0 {
        let (t, s1) = spec_nbt_take(s, start_len, 1);
        lemma_take_within_budget(s, start_len, 1);
        if let Ok(tag_bytes) = t {
            let tag = tag_bytes[0];
            if tag != 0 && entries + 1 <= usize::MAX && entries + 1 <= s1.limits.max_collection_elements {
                let (c2, s2) = spec_charge_elements(s1, 1);
                let (c3, s3) = spec_charge_allocation(s2, 64);
                lemma_string_within_budget(s3, start_len);
                let (c4, s4) = spec_scan_string(s3, start_len);
                lemma_payload_within_budget(s4, start_len, tag, sat_add(depth, 1), (fuel - 1) as nat);
                let (c5, s5) = spec_scan_payload(s4, start_len, tag, sat_add(depth, 1), (fuel - 1) as nat);
                lemma_entries_within_budget(s5, start_len, depth, (entries + 1) as usize, (fuel - 1) as nat);
            }
        }
    }
}

pub proof fn lemma_payload_within_budget(s: DecodeState, start_len: usize, tag: u8, depth: usize, fuel: nat)
    requires
        within_nbt_budget(s, start_len),
    ensures
        within_nbt_budget(spec_scan_payload(s, start_len, tag, depth, fuel).1, start_len),
        spec_scan_payload(s, start_len, tag, depth, fuel).1.limits == s.limits,
    decreases fuel, 2nat,
{
    if fuel > 0 {
        lemma_take_within_budget(s, start_len, 1);
        lemma_take_within_budget(s, start_len, 2);
        lemma_take_within_budget(s, start_len, 4);
        lemma_take_within_budget(s, start_len, 8);
        lemma_array_within_budget(s, start_len, 1);
        lemma_array_within_budget(s, start_len, 4);
        lemma_array_within_budget(s, start_len, 8);
        lemma_string_within_budget(s, start_len);
        lemma_list_within_budget(s, start_len, depth, (fuel - 1) as nat);
        lemma_compound_within_budget(s, start_len, sat_add(depth, 1), (fuel - 1) as nat);
    }
}

pub proof fn lemma_list_within_budget(s: DecodeState, start_len: usize, depth: usize, fuel: nat)
    requires
        within_nbt_budget(s, start_len),
    ensures
        within_nbt_budget(spec_scan_list(s, start_len, depth, fuel).1, start_len),
        spec_scan_list(s, start_len, depth, fuel).1.limits == s.limits,
    decreases fuel, 1nat,
{
    let (t, s1) = spec_nbt_take(s, start_len, 1);
    lemma_take_within_budget(s, start_len, 1);
    if let Ok(tag_bytes) = t {
        let element_tag = tag_bytes[0];
        lemma_take_within_budget(s1, start_len, 4);
        let (r, s2) = spec_nbt_i32(s1, start_len);
        if let Ok(raw) = r {
            if let Ok(count) = spec_checked_len(raw, LimitKind::CollectionElements, s2.limits.max_collection_elements) {
                if !(element_tag == 0 && count != 0) {
                    let (c3, s3) = spec_charge_elements(s2, count);
                    if count * 32 <= usize::MAX {
                        let (c4, s4) = spec_charge_allocation(s3, (count * 32) as usize);
                        lemma_elements_within_budget(s4, start_len, element_tag, sat_add(depth, 1), count, fuel);
                    }
                }
            }
        }
    }
}

pub proof fn lemma_elements_within_budget(
    s: DecodeState,
    start_len: usize,
    tag: u8,
    depth: usize,
    remaining: usize,
    fuel: nat,
)
    requires
        within_nbt_budget(s, start_len),
    ensures
        within_nbt_budget(spec_scan_elements(s, start_len, tag, depth, remaining, fuel).1, start_len),
        spec_scan_elements(s, start_len, tag, depth, remaining, fuel).1.limits == s.limits,
    decreases fuel, 0nat,
{
    if remaining != 0 && fuel > 0 {
        lemma_payload_within_budget(s, start_len, tag, depth, (fuel - 1) as nat);
        let (c, s1) = spec_scan_payload(s, start_len, tag, depth, (fuel - 1) as nat);
        lemma_elements_within_budget(s1, start_len, tag, depth, (remaining - 1) as usize, (fuel - 1) as nat);
    }
}

/// Decoding NBT never reads more bytes than the NBT byte budget allows,
/// whatever the input and whether or not it succeeds.
pub proof fn nbt_decode_reads_within_budget(before: DecodeState, result: Result<Nbt, DecodeError>, after: DecodeState)
    requires
        before.rest.len() <= usize::MAX,
        <Nbt as Decode>::decodes(before, result, after),
    ensures
        after.rest.len() <= before.rest.len(),
        before.rest.len() - after.rest.len() <= before.limits.max_nbt_bytes,
{
    let start_len = before.rest.len() as usize;
    lemma_take_within_budget(before, start_len, 1);
    let (t, s1) = spec_nbt_take(before, start_len, 1);
    if let Ok(root) = t {
        if root[0] == 0x0A {
            lemma_compound_within_budget(s1, start_len, 0, (s1.rest.len() + 2) as nat);
        }
    }
}


/// The payload size the NBT format gives each fixed-size tag: byte 1,
/// short 2, int 4, long 8, float 4, double 8.
pub open spec fn fixed_payload_size(tag: u8) -> Option<nat> {
    if tag == 1 {
        Some(1)
    } else if tag == 2 {
        Some(2)
    } else if tag == 3 {
        Some(4)
    } else if tag == 4 {
        Some(8)
    } else if tag == 5 {
        Some(4)
    } else if tag == 6 {
        Some(8)
    } else {
        None
    }
}

/// A fixed-size payload is read at exactly its size in the NBT format:
/// within the depth and byte budgets and with that many bytes left, the scan
/// succeeds and moves past exactly those bytes, no more and no fewer; with
/// fewer bytes left it fails at the end of the input.
pub proof fn fixed_payloads_take_their_format_size(
    s: DecodeState,
    start_len: usize,
    tag: u8,
    depth: usize,
    fuel: nat,
)
    requires
        fixed_payload_size(tag) is Some,
        fuel > 0,
        depth <= s.limits.max_nbt_depth,
        s.rest.len() <= start_len,
        start_len - s.rest.len() + fixed_payload_size(tag)->0 <= s.limits.max_nbt_bytes,
    ensures
        ({
            let n = fixed_payload_size(tag)->0;
            let (r, after) = spec_scan_payload(s, start_len, tag, depth, fuel);
            &&& n <= s.rest.len() ==> r is Ok && after.rest == s.rest.subrange(n as int, s.rest.len() as int)
            &&& n > s.rest.len() ==> r == Err::<(), DecodeError>(DecodeError::UnexpectedEof)
        }),
{
}

/// The element width the NBT format gives each array tag: byte array 1,
/// int array 4, long array 8.
pub open spec fn array_element_width(tag: u8) -> Option<nat> {
    if tag == 7 {
        Some(1)
    } else if tag == 11 {
        Some(4)
    } else if tag == 12 {
        Some(8)
    } else {
        None
    }
}

/// A string payload is a big-endian two-byte length and that many bytes:
/// within the budgets and with the bytes there, the scan succeeds and moves
/// past exactly those `2 + length` bytes.
pub proof fn strings_take_their_length_and_bytes(s: DecodeState, start_len: usize, depth: usize, fuel: nat)
    requires
        fuel > 0,
        depth <= s.limits.max_nbt_depth,
        s.rest.len() >= 2,
        s.rest.len() <= start_len,
        ({
            let len = be_value(s.rest.subrange(0, 2));
            &&& 2 + len <= s.rest.len()
            &&& start_len - s.rest.len() + 2 + len <= s.limits.max_nbt_bytes
            &&& s.allocated + len <= s.limits.max_allocation_bytes
        }),
    ensures
        ({
            let len = be_value(s.rest.subrange(0, 2));
            let (r, after) = spec_scan_payload(s, start_len, 8, depth, fuel);
            r is Ok && after.rest == s.rest.subrange((2 + len) as int, s.rest.len() as int)
        }),
{
    let len = be_value(s.rest.subrange(0, 2));
    let s1 = s.advance(2);
    assert(s1.rest.subrange(len as int, s1.rest.len() as int) =~= s.rest.subrange((2 + len) as int, s.rest.len() as int));
}

/// An array payload is a big-endian four-byte count and that many elements
/// of the tag's width: within the budgets and with the bytes there, the scan
/// succeeds and moves past exactly `4 + count * width` bytes.
pub proof fn arrays_take_their_count_and_elements(s: DecodeState, start_len: usize, tag: u8, depth: usize, fuel: nat)
    requires
        array_element_width(tag) is Some,
        fuel > 0,
        depth <= s.limits.max_nbt_depth,
        s.rest.len() >= 4,
        s.rest.len() <= start_len,
        ({
            let count = be_value(s.rest.subrange(0, 4));
            let bytes = count * array_element_width(tag)->0;
            &&& count < 0x8000_0000
            &&& count <= s.limits.max_collection_elements
            &&& s.elements + count <= s.limits.max_total_elements
            &&& s.allocated + bytes <= s.limits.max_allocation_bytes
            &&& 4 + bytes <= s.rest.len()
            &&& start_len - s.rest.len() + 4 + bytes <= s.limits.max_nbt_bytes
        }),
    ensures
        ({
            let count = be_value(s.rest.subrange(0, 4));
            let bytes = count * array_element_width(tag)->0;
            let (r, after) = spec_scan_payload(s, start_len, tag, depth, fuel);
            r is Ok && after.rest == s.rest.subrange((4 + bytes) as int, s.rest.len() as int)
        }),
{
    let count = be_value(s.rest.subrange(0, 4));
    let w = array_element_width(tag)->0;
    let bytes = count * w;
    assert(0 <= bytes) by (nonlinear_arith)
        requires
            count >= 0,
            w >= 0,
            bytes == count * w,
    ;
    let s1 = s.advance(4);
    assert(s1.rest.subrange(bytes as int, s1.rest.len() as int) =~= s.rest.subrange((4 + bytes) as int, s.rest.len() as int));
}
} // verus!
