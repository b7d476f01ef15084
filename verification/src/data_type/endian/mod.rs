//! Endian-aware integers.
//!
//! These types store their bytes in the order encoded in their type parameter. Prefer them for
//! file-format storage instead of native multi-byte primitives, whose bytes are host-endian.
pub mod aliases;
pub mod order;
pub mod signed;
mod stored_bytes;
pub mod unsigned;

pub use aliases::{
    i16_be, i16_le, i32_be, i32_le, i64_be, i64_le, u16_be, u16_le, u32_be, u32_le, u64_be, u64_le,
};
pub use order::{Big, ByteOrder, Little};
pub use signed::{I16, I32, I64};
pub use unsigned::{U16, U32, U64};
