pub mod decoder;
pub mod error;
pub mod primitives;
pub mod text;
pub mod wire;

pub mod attrs;
pub mod derive;

pub mod audio;
pub mod chat;
pub mod commands;
pub mod data;
pub mod environment;
pub mod hud;
pub mod items;
pub mod kart;
pub mod race;
pub mod records;
pub mod seed;
pub mod settings;
pub mod sidebar;
pub mod sign;
pub mod teams;
pub mod terrain;
pub mod travel;

pub use decoder::{Decode, DecodeLimits, DecodeState, Decoder, Encode};
pub use error::{DecodeError, LimitKind};
pub use primitives::{
    decode_fixed_length_vec, decode_fixed_length_vec_u8, decode_remaining_vec_u8,
    encode_fixed_length_vec, encode_fixed_length_vec_u8, encode_remaining_vec_u8, VarI32, VarI64,
};
