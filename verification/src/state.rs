//! The stored record and its fixed eight-byte layout.
//!
//! The record occupies bytes `0..8` of an account's storage. Storage may be
//! longer: the bytes from offset eight on are never read and never written.

use crate::error::PriceUpdateError;
use crate::little_endian::{le_bytes, le_u64, lemma_decode_encode, read_u64, write_u64};
use vstd::prelude::*;

verus! {

/// The record an account keeps: the last price written to it. Every `u64` is
/// a legal price.
#[derive(Debug, Clone, Copy, PartialEq, Eq, Structural)]
pub struct PriceLogger {
    pub price: u64,
}

impl PriceLogger {
    /// Number of bytes the stored record occupies.
    pub const LEN: usize = 8;

    /// The record held by storage whose content is `storage`.
    pub open spec fn decode(storage: Seq<u8>) -> PriceLogger
        recommends
            storage.len() >= 8,
    {
        PriceLogger { price: le_u64(storage) }
    }

    /// The eight bytes that hold this record.
    pub open spec fn encode(self) -> Seq<u8> {
        le_bytes(self.price)
    }

    /// The content of storage after this record is written over `storage`:
    /// the record's bytes, then `storage` from offset eight on.
    pub open spec fn written_over(self, storage: Seq<u8>) -> Seq<u8>
        recommends
            storage.len() >= 8,
    {
        self.encode() + storage.skip(8)
    }

    /// Reads the record from the first eight bytes of `src`.
    pub fn unpack_from_slice(src: &[u8]) -> (result: Result<PriceLogger, PriceUpdateError>)
        requires
            src@.len() >= 8,
        ensures
            result == Ok::<PriceLogger, PriceUpdateError>(PriceLogger::decode(src@)),
    {
        let price = read_u64(src);
        Ok(PriceLogger { price })
    }

    /// Writes the record over the first eight bytes of `dst`.
    pub fn pack_into_slice(&self, dst: &mut [u8])
        requires
            old(dst)@.len() >= 8,
        ensures
            final(dst)@ == self.written_over(old(dst)@),
    {
        write_u64(self.price, dst);
    }

    /// Reads the record that `input` holds, or reports `Codec` when `input`
    /// is too short to hold one. The price itself is not judged.
    pub fn unpack_unchecked(input: &[u8]) -> (result: Result<PriceLogger, PriceUpdateError>)
        ensures
            input@.len() < 8 ==> result == Err::<PriceLogger, PriceUpdateError>(
                PriceUpdateError::Codec,
            ),
            input@.len() >= 8 ==> result == Ok::<PriceLogger, PriceUpdateError>(
                PriceLogger::decode(input@),
            ),
    {
        if input.len() < PriceLogger::LEN {
            return Err(PriceUpdateError::Codec);
        }
        PriceLogger::unpack_from_slice(input)
    }

    /// Writes `src` into `dst`, or reports `Codec` and leaves `dst` as it was
    /// when `dst` is too short to hold a record.
    pub fn pack(src: PriceLogger, dst: &mut [u8]) -> (result: Result<(), PriceUpdateError>)
        ensures
            old(dst)@.len() < 8 ==> result == Err::<(), PriceUpdateError>(PriceUpdateError::Codec)
                && final(dst)@ == old(dst)@,
            old(dst)@.len() >= 8 ==> result == Ok::<(), PriceUpdateError>(()) && final(dst)@
                == src.written_over(old(dst)@),
    {
        if dst.len() < PriceLogger::LEN {
            return Err(PriceUpdateError::Codec);
        }
        src.pack_into_slice(dst);
        Ok(())
    }
}

/// A record written to storage is the record read back from it, whatever the
/// storage held before and however long it is.
pub proof fn lemma_written_record_is_read_back(record: PriceLogger, storage: Seq<u8>)
    requires
        storage.len() >= 8,
    ensures
        record.written_over(storage).len() == storage.len(),
        PriceLogger::decode(record.written_over(storage)) == record,
{
    lemma_decode_encode(record.price);
    let after = record.written_over(storage);
    assert(after.take(8) =~= le_bytes(record.price));
    assert(le_u64(after) == le_u64(after.take(8)));
}

/// Writing a record changes nothing beyond the first eight bytes.
pub proof fn lemma_write_keeps_tail(record: PriceLogger, storage: Seq<u8>)
    requires
        storage.len() >= 8,
    ensures
        record.written_over(storage).take(8) == record.encode(),
        record.written_over(storage).skip(8) == storage.skip(8),
{
    lemma_decode_encode(record.price);
    let after = record.written_over(storage);
    assert(after.take(8) =~= record.encode());
    assert(after.skip(8) =~= storage.skip(8));
}

} // verus!
