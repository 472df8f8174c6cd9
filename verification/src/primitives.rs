pub mod booleans;
pub mod containers;
pub mod fixed_length;
pub mod integers;
pub mod lp_vec3;
pub mod nbt;
pub mod strings;
pub mod uuid_codec;
pub mod varint;

pub use fixed_length::{
    decode_fixed_length_vec, decode_fixed_length_vec_u8, decode_remaining_vec_u8,
    encode_fixed_length_vec, encode_fixed_length_vec_u8, encode_remaining_vec_u8,
};
pub use varint::{VarI32, VarI64};
