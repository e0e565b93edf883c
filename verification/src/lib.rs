//! A price record kept in the first eight bytes of an account's storage, and
//! the single instruction that overwrites it.
//!
//! The crate is organised leaves first: the little-endian encoding of a
//! 64-bit integer, the stored record, the instruction payload, and the
//! handler that checks the caller and applies the instruction.

pub mod account;
pub mod error;
pub mod instruction;
pub mod little_endian;
pub mod processor;
pub mod state;
