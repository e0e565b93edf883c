use price_update::error::PriceUpdateError;
use price_update::little_endian::{read_u64, write_u64, WIDTH};
use price_update::state::PriceLogger;

#[test]
fn width_is_eight_bytes() {
    assert_eq!(WIDTH, 8);
    assert_eq!(PriceLogger::LEN, 8);
}

#[test]
fn read_u64_weighs_each_byte_by_its_position() {
    assert_eq!(read_u64(&[1, 0, 0, 0, 0, 0, 0, 0]), 1);
    assert_eq!(read_u64(&[0, 1, 0, 0, 0, 0, 0, 0]), 256);
    assert_eq!(read_u64(&[0, 0, 1, 0, 0, 0, 0, 0]), 65_536);
    assert_eq!(read_u64(&[0, 0, 0, 0, 0, 0, 0, 1]), 72_057_594_037_927_936);
    assert_eq!(
        read_u64(&[0xef, 0xcd, 0xab, 0x89, 0x67, 0x45, 0x23, 0x01]),
        0x0123_4567_89ab_cdef
    );
}

#[test]
fn read_u64_reaches_both_ends_of_the_range() {
    assert_eq!(read_u64(&[0; 8]), 0);
    assert_eq!(read_u64(&[0xff; 8]), u64::MAX);
}

#[test]
fn read_u64_ignores_bytes_after_the_eighth() {
    assert_eq!(read_u64(&[42, 0, 0, 0, 0, 0, 0, 0, 9, 9, 9]), 42);
}

#[test]
fn write_u64_puts_the_least_significant_byte_first() {
    let mut dst = [0u8; 8];
    write_u64(0x0123_4567_89ab_cdef, &mut dst);
    assert_eq!(dst, [0xef, 0xcd, 0xab, 0x89, 0x67, 0x45, 0x23, 0x01]);
}

#[test]
fn write_u64_overwrites_all_eight_bytes() {
    let mut dst = [0xaau8; 8];
    write_u64(1, &mut dst);
    assert_eq!(dst, [1, 0, 0, 0, 0, 0, 0, 0]);
    write_u64(u64::MAX, &mut dst);
    assert_eq!(dst, [0xff; 8]);
}

#[test]
fn write_u64_leaves_later_bytes_alone() {
    let mut dst = [7u8; 12];
    write_u64(42, &mut dst);
    assert_eq!(dst, [42, 0, 0, 0, 0, 0, 0, 0, 7, 7, 7, 7]);
}

#[test]
fn codec_agrees_with_the_standard_encoding() {
    let samples: [u64; 7] = [
        0,
        1,
        255,
        256,
        0xdead_beef,
        0x8000_0000_0000_0000,
        u64::MAX,
    ];
    for value in samples {
        let mut dst = [0u8; 8];
        write_u64(value, &mut dst);
        assert_eq!(dst, value.to_le_bytes());
        assert_eq!(read_u64(&value.to_le_bytes()), value);
    }
}

#[test]
fn written_value_is_read_back() {
    let samples: [u64; 5] = [0, 42, 1_000_000_007, 0x00ff_00ff_00ff_00ff, u64::MAX];
    for value in samples {
        let mut dst = [0x5au8; 16];
        write_u64(value, &mut dst);
        assert_eq!(read_u64(&dst), value);
    }
}

#[test]
fn unpack_from_slice_reads_the_price() {
    assert_eq!(
        PriceLogger::unpack_from_slice(&[7, 0, 0, 0, 0, 0, 0, 0]),
        Ok(PriceLogger { price: 7 })
    );
    assert_eq!(
        PriceLogger::unpack_from_slice(&[0, 0, 0, 0, 1, 0, 0, 0]),
        Ok(PriceLogger { price: 4_294_967_296 })
    );
}

#[test]
fn pack_into_slice_writes_the_price() {
    let mut dst = [9u8; 8];
    PriceLogger { price: 300 }.pack_into_slice(&mut dst);
    assert_eq!(dst, [44, 1, 0, 0, 0, 0, 0, 0]);
}

#[test]
fn unpack_unchecked_accepts_exactly_eight_bytes() {
    assert_eq!(
        PriceLogger::unpack_unchecked(&[42, 0, 0, 0, 0, 0, 0, 0]),
        Ok(PriceLogger { price: 42 })
    );
}

#[test]
fn unpack_unchecked_accepts_longer_storage() {
    assert_eq!(
        PriceLogger::unpack_unchecked(&[42, 0, 0, 0, 0, 0, 0, 0, 1, 2, 3, 4]),
        Ok(PriceLogger { price: 42 })
    );
}

#[test]
fn unpack_unchecked_rejects_every_short_length() {
    let bytes = [0xffu8; 8];
    for len in 0..8 {
        assert_eq!(
            PriceLogger::unpack_unchecked(&bytes[..len]),
            Err(PriceUpdateError::Codec)
        );
    }
}

#[test]
fn unpack_unchecked_accepts_any_price() {
    assert_eq!(
        PriceLogger::unpack_unchecked(&[0; 8]),
        Ok(PriceLogger { price: 0 })
    );
    assert_eq!(
        PriceLogger::unpack_unchecked(&[0xff; 8]),
        Ok(PriceLogger { price: u64::MAX })
    );
}

#[test]
fn pack_writes_into_exactly_eight_bytes() {
    let mut dst = [7u8, 0, 0, 0, 0, 0, 0, 0];
    assert_eq!(PriceLogger::pack(PriceLogger { price: 42 }, &mut dst), Ok(()));
    assert_eq!(dst, [42, 0, 0, 0, 0, 0, 0, 0]);
}

#[test]
fn pack_leaves_bytes_after_the_record_alone() {
    let mut dst = [0xeeu8; 11];
    assert_eq!(
        PriceLogger::pack(PriceLogger { price: 0x0102 }, &mut dst),
        Ok(())
    );
    assert_eq!(dst, [2, 1, 0, 0, 0, 0, 0, 0, 0xee, 0xee, 0xee]);
}

#[test]
fn pack_rejects_every_short_length_and_writes_nothing() {
    for len in 0..8 {
        let mut dst = vec![0xeeu8; len];
        assert_eq!(
            PriceLogger::pack(PriceLogger { price: 42 }, &mut dst),
            Err(PriceUpdateError::Codec)
        );
        assert_eq!(dst, vec![0xeeu8; len]);
    }
}

#[test]
fn packed_record_is_unpacked_again() {
    let samples: [u64; 4] = [0, 42, 0x0123_4567_89ab_cdef, u64::MAX];
    for price in samples {
        let mut storage = [0x11u8; 8];
        assert_eq!(PriceLogger::pack(PriceLogger { price }, &mut storage), Ok(()));
        assert_eq!(
            PriceLogger::unpack_unchecked(&storage),
            Ok(PriceLogger { price })
        );
    }
}
