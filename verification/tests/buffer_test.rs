use memory_stream::bits::bytes_for;
use memory_stream::buffer::{ensure_len, zeroed, DEFAULT_CAPACITY};

#[test]
fn default_capacity_is_1024() {
    assert_eq!(DEFAULT_CAPACITY, 1024);
}

#[test]
fn zeroed_gives_zero_bytes() {
    assert_eq!(zeroed(0), Vec::<u8>::new());
    assert_eq!(zeroed(3), vec![0u8, 0, 0]);
    assert_eq!(zeroed(1024).len(), 1024);
    assert!(zeroed(1024).iter().all(|b| *b == 0));
}

#[test]
fn ensure_len_leaves_a_long_enough_buffer_alone() {
    let mut buf = vec![1u8, 2, 3, 4];
    ensure_len(&mut buf, 0);
    assert_eq!(buf, vec![1, 2, 3, 4]);
    ensure_len(&mut buf, 3);
    assert_eq!(buf, vec![1, 2, 3, 4]);
    ensure_len(&mut buf, 4);
    assert_eq!(buf, vec![1, 2, 3, 4]);
}

#[test]
fn ensure_len_doubles_where_that_is_enough() {
    let mut buf = vec![1u8, 2, 3, 4];
    ensure_len(&mut buf, 5);
    assert_eq!(buf, vec![1, 2, 3, 4, 0, 0, 0, 0]);
    ensure_len(&mut buf, 16);
    assert_eq!(buf.len(), 16);
    assert_eq!(&buf[..4], [1, 2, 3, 4]);
    assert!(buf[4..].iter().all(|b| *b == 0));
}

#[test]
fn ensure_len_fits_exactly_where_doubling_falls_short() {
    let mut buf = vec![7u8, 8];
    ensure_len(&mut buf, 5);
    assert_eq!(buf, vec![7, 8, 0, 0, 0]);
    let mut empty: Vec<u8> = Vec::new();
    ensure_len(&mut empty, 3);
    assert_eq!(empty, vec![0, 0, 0]);
}

#[test]
fn ensure_len_never_shrinks() {
    let mut buf = vec![9u8; 100];
    for need in [0usize, 1, 50, 99, 100] {
        ensure_len(&mut buf, need);
        assert_eq!(buf.len(), 100);
    }
    ensure_len(&mut buf, 101);
    assert_eq!(buf.len(), 200);
}

#[test]
fn bytes_for_rounds_up() {
    assert_eq!(bytes_for(0), 0);
    assert_eq!(bytes_for(1), 1);
    assert_eq!(bytes_for(7), 1);
    assert_eq!(bytes_for(8), 1);
    assert_eq!(bytes_for(9), 2);
    assert_eq!(bytes_for(26), 4);
    assert_eq!(bytes_for(usize::MAX), usize::MAX / 8 + 1);
}
