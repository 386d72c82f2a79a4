use memory_stream::byte_stream::{get_platform_endianness, Endianness};
use memory_stream::wire::{
    i16_from_bits, i16_to_bits, i32_from_bits, i32_to_bits, i64_from_bits, i64_to_bits,
    i8_from_bits, i8_to_bits, u16_from_raw_bytes, u16_raw_bytes, u32_from_raw_bytes,
    u32_raw_bytes, u64_from_raw_bytes, u64_raw_bytes,
};

#[test]
fn reference_order_is_little_endian() {
    assert!(get_platform_endianness() == Endianness::LittleEndian);
    assert!(get_platform_endianness() != Endianness::BigEndian);
}

#[test]
fn raw_bytes_are_least_significant_first() {
    assert_eq!(u16_raw_bytes(0x0102), [2, 1]);
    assert_eq!(u32_raw_bytes(0x0102_0304), [4, 3, 2, 1]);
    assert_eq!(u64_raw_bytes(0x0102_0304_0506_0708), [8, 7, 6, 5, 4, 3, 2, 1]);
    assert_eq!(u16_raw_bytes(10000), 10000u16.to_le_bytes());
    assert_eq!(u32_raw_bytes(1234567890), 1234567890u32.to_le_bytes());
    assert_eq!(u64_raw_bytes(9000000006854776000), 9000000006854776000u64.to_le_bytes());
    assert_eq!(u16_raw_bytes(u16::MAX), [255, 255]);
    assert_eq!(u32_raw_bytes(0), [0, 0, 0, 0]);
    assert_eq!(u64_raw_bytes(u64::MAX), [255; 8]);
}

#[test]
fn raw_bytes_are_read_least_significant_first() {
    assert_eq!(u16_from_raw_bytes(&[2, 1]), 0x0102);
    assert_eq!(u32_from_raw_bytes(&[4, 3, 2, 1]), 0x0102_0304);
    assert_eq!(u64_from_raw_bytes(&[8, 7, 6, 5, 4, 3, 2, 1]), 0x0102_0304_0506_0708);
    assert_eq!(u16_from_raw_bytes(&[255, 255]), u16::MAX);
    assert_eq!(u32_from_raw_bytes(&[0, 0, 0, 128]), 0x8000_0000);
    assert_eq!(u64_from_raw_bytes(&[255; 8]), u64::MAX);
}

#[test]
fn raw_bytes_round_trip() {
    for v in [0u16, 1, 0x00ff, 0x0100, 10000, u16::MAX] {
        assert_eq!(u16_from_raw_bytes(&u16_raw_bytes(v)), v);
    }
    for v in [0u32, 1, 0x00ff_00ff, 1234567890, u32::MAX] {
        assert_eq!(u32_from_raw_bytes(&u32_raw_bytes(v)), v);
    }
    for v in [0u64, 1, 0x00ff_00ff_00ff_00ff, 9000000006854776000, u64::MAX] {
        assert_eq!(u64_from_raw_bytes(&u64_raw_bytes(v)), v);
    }
}

#[test]
fn signed_bit_patterns_are_twos_complement() {
    assert_eq!(i8_to_bits(-1), 0xff);
    assert_eq!(i8_to_bits(i8::MIN), 0x80);
    assert_eq!(i8_to_bits(i8::MAX), 0x7f);
    assert_eq!(i8_to_bits(-2), 254);
    assert_eq!(i16_to_bits(-2), 0xfffe);
    assert_eq!(i16_to_bits(i16::MIN), 0x8000);
    assert_eq!(i16_to_bits(30000), 30000);
    assert_eq!(i32_to_bits(-2), 0xffff_fffe);
    assert_eq!(i32_to_bits(i32::MIN), 0x8000_0000);
    assert_eq!(i32_to_bits(65536), 65536);
    assert_eq!(i64_to_bits(-2), 0xffff_ffff_ffff_fffe);
    assert_eq!(i64_to_bits(i64::MIN), 0x8000_0000_0000_0000);
    assert_eq!(i64_to_bits(-5611626018427388000), (-5611626018427388000i64) as u64);
}

#[test]
fn signed_values_of_bit_patterns() {
    assert_eq!(i8_from_bits(0xff), -1);
    assert_eq!(i8_from_bits(0x80), i8::MIN);
    assert_eq!(i8_from_bits(0x7f), i8::MAX);
    assert_eq!(i16_from_bits(0xfffe), -2);
    assert_eq!(i16_from_bits(0x8000), i16::MIN);
    assert_eq!(i32_from_bits(0xffff_fffe), -2);
    assert_eq!(i32_from_bits(0x7fff_ffff), i32::MAX);
    assert_eq!(i64_from_bits(0xffff_ffff_ffff_fffe), -2);
    assert_eq!(i64_from_bits(0x8000_0000_0000_0000), i64::MIN);
}

#[test]
fn signed_bit_patterns_round_trip() {
    for v in [i8::MIN, -2, -1, 0, 1, i8::MAX] {
        assert_eq!(i8_from_bits(i8_to_bits(v)), v);
    }
    for v in [i16::MIN, -2, -1, 0, 1, 30000, i16::MAX] {
        assert_eq!(i16_from_bits(i16_to_bits(v)), v);
    }
    for v in [i32::MIN, -2, -1, 0, 1, 65536, i32::MAX] {
        assert_eq!(i32_from_bits(i32_to_bits(v)), v);
    }
    for v in [i64::MIN, -5611626018427388000, -1, 0, 1, i64::MAX] {
        assert_eq!(i64_from_bits(i64_to_bits(v)), v);
    }
}
