//! Storage types for packed data.
pub mod endian;
pub mod small;
