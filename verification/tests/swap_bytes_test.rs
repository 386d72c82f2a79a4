use memory_stream::byte_stream::swap_bytes::{swap_2_bytes, swap_4_bytes, swap_8_bytes};

#[test]
fn swap_two_bytes() {
    let num = 10000u16;
    assert_eq!(swap_2_bytes(num), num.swap_bytes());
}

#[test]
fn swap_four_bytes() {
    let num = 1234567890u32;
    assert_eq!(swap_4_bytes(num), num.swap_bytes());
}

#[test]
fn swap_eight_bytes() {
    let num = 9000000006854776000u64;
    assert_eq!(swap_8_bytes(num), num.swap_bytes());
}

#[test]
fn swap_exact_values() {
    assert_eq!(swap_2_bytes(0x1234), 0x3412);
    assert_eq!(swap_4_bytes(0x1234_5678), 0x7856_3412);
    assert_eq!(swap_8_bytes(0x0102_0304_0506_0708), 0x0807_0605_0403_0201);
}

#[test]
fn swap_edges() {
    assert_eq!(swap_2_bytes(0), 0);
    assert_eq!(swap_2_bytes(u16::MAX), u16::MAX);
    assert_eq!(swap_2_bytes(0x00ff), 0xff00);
    assert_eq!(swap_4_bytes(0), 0);
    assert_eq!(swap_4_bytes(u32::MAX), u32::MAX);
    assert_eq!(swap_4_bytes(0x0000_00ff), 0xff00_0000);
    assert_eq!(swap_8_bytes(0), 0);
    assert_eq!(swap_8_bytes(u64::MAX), u64::MAX);
    assert_eq!(swap_8_bytes(0xff), 0xff00_0000_0000_0000);
}

#[test]
fn swap_twice_is_identity() {
    for &v in &[0u16, 1, 0x00ff, 0x1234, 10000, u16::MAX] {
        assert_eq!(swap_2_bytes(swap_2_bytes(v)), v);
    }
    for &v in &[0u32, 1, 0x1234_5678, 1234567890, u32::MAX] {
        assert_eq!(swap_4_bytes(swap_4_bytes(v)), v);
    }
    for &v in &[0u64, 1, 0x0102_0304_0506_0708, 9000000006854776000, u64::MAX] {
        assert_eq!(swap_8_bytes(swap_8_bytes(v)), v);
    }
}
