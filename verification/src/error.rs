use vstd::prelude::*;

use crate::text::{decimal, decimal_chars, hex_byte, hex_byte_chars};

verus! {

/// The budget that a refused decode would have exceeded.
#[derive(Debug, Clone, Copy, PartialEq, Eq)]
pub enum LimitKind {
    StringBytes,
    CollectionElements,
    TotalElements,
    AllocationBytes,
    RemainingBytes,
    NbtBytes,
    NbtDepth,
    DecodeDepth,
}

/// Why a decode failed.
#[derive(Debug, Clone, PartialEq, Eq)]
pub enum DecodeError {
    UnexpectedEof,
    InvalidVarintLength,
    InvalidPacketId(Option<u8>),
    InvalidLength,
    LimitExceeded { kind: LimitKind, requested: usize, limit: usize },
    AllocationFailed { requested: usize },
}

/// The text each error is reported with.
pub open spec fn message_chars(e: DecodeError) -> Seq<char> {
    match e {
        DecodeError::UnexpectedEof => "Unexpected end of stream"@,
        DecodeError::InvalidVarintLength => "Invalid variable-length integer"@,
        DecodeError::InvalidPacketId(Some(id)) => "Unsupported packet id 0x"@ + hex_byte_chars(id),
        DecodeError::InvalidPacketId(None) => "Invalid packet id"@,
        DecodeError::InvalidLength => "Invalid length value"@,
        DecodeError::LimitExceeded { kind: _, requested, limit } => "Decode limit exceeded: requested "@
            + decimal_chars(requested as nat) + ", limit "@ + decimal_chars(limit as nat),
        DecodeError::AllocationFailed { requested } => "Allocation failed: requested "@ + decimal_chars(
            requested as nat,
        ) + " bytes"@,
    }
}

impl DecodeError {
    /// The text this error is reported with.
    pub fn message(&self) -> (s: String)
        ensures
            s@ == message_chars(*self),
    {
        match self {
            DecodeError::UnexpectedEof => String::from_str("Unexpected end of stream"),
            DecodeError::InvalidVarintLength => String::from_str("Invalid variable-length integer"),
            DecodeError::InvalidPacketId(Some(id)) => {
                let hex = hex_byte(*id);
                String::from_str("Unsupported packet id 0x").concat(hex.as_str())
            },
            DecodeError::InvalidPacketId(None) => String::from_str("Invalid packet id"),
            DecodeError::InvalidLength => String::from_str("Invalid length value"),
            DecodeError::LimitExceeded { kind: _, requested, limit } => {
                let a = decimal(*requested as u64);
                let b = decimal(*limit as u64);
                String::from_str("Decode limit exceeded: requested ").concat(a.as_str()).concat(
                    ", limit ",
                ).concat(b.as_str())
            },
            DecodeError::AllocationFailed { requested } => {
                let a = decimal(*requested as u64);
                String::from_str("Allocation failed: requested ").concat(a.as_str()).concat(" bytes")
            },
        }
    }
}

} // verus!
