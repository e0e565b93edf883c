//! The instruction payload and the command it decodes to.
//!
//! A payload is the new price as eight little-endian bytes. There is one
//! kind of instruction, so the payload carries no tag; bytes after the eighth
//! are ignored.

use crate::error::PriceUpdateError;
use crate::little_endian::{le_u64, read_u64, WIDTH};
use vstd::prelude::*;

verus! {

/// A decoded instruction.
#[derive(Debug, Clone, Copy, PartialEq, Eq, Structural)]
pub enum PriceUpdateInstruction {
    /// Overwrite the stored price with `target_price`.
    UpdatePrice { target_price: u64 },
}

impl PriceUpdateInstruction {
    /// What a payload decodes to: the instruction it carries, or
    /// `InvalidInstruction` when it holds fewer than eight bytes.
    pub open spec fn decode(input: Seq<u8>) -> Result<PriceUpdateInstruction, PriceUpdateError> {
        if input.len() < 8 {
            Err(PriceUpdateError::InvalidInstruction)
        } else {
            Ok(PriceUpdateInstruction::UpdatePrice { target_price: le_u64(input) })
        }
    }

    /// Decodes a payload.
    pub fn unpack(input: &[u8]) -> (result: Result<Self, PriceUpdateError>)
        ensures
            result == Self::decode(input@),
            input@.len() < 8 <==> result is Err,
    {
        match Self::unpack_price(input) {
            Ok(target_price) => Ok(Self::UpdatePrice { target_price }),
            Err(e) => Err(e),
        }
    }

    /// Reads the price at the front of a payload.
    pub fn unpack_price(input: &[u8]) -> (result: Result<u64, PriceUpdateError>)
        ensures
            input@.len() < 8 ==> result == Err::<u64, PriceUpdateError>(
                PriceUpdateError::InvalidInstruction,
            ),
            input@.len() >= 8 ==> result == Ok::<u64, PriceUpdateError>(le_u64(input@)),
    {
        if input.len() < WIDTH {
            return Err(PriceUpdateError::InvalidInstruction);
        }
        Ok(read_u64(input))
    }
}

} // verus!
