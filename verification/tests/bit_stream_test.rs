use memory_stream::bit_stream::input_bit_stream::InputBitStream;
use memory_stream::bit_stream::output_bit_stream::OutputBitStream;
use memory_stream::byte_stream::Endianness;
use memory_stream::error::StreamError;

#[test]
fn bit_stream_test_write_read_one_byte() {
    let mut o = OutputBitStream::default();
    o.write_bool(true);
    o.write_bool(false);
    o.write_u8(0u8);
    o.write_u8(255u8);
    o.write_i8(-2i8);
    assert_eq!(o.buffer(), [1, 252, 251, 3]);

    let mut i = InputBitStream::new(o.buffer());
    assert_eq!(i.read_bool(), Ok(true));
    assert_eq!(i.read_bool(), Ok(false));
    assert_eq!(i.read_u8(), Ok(0));
    assert_eq!(i.read_u8(), Ok(255));
    assert_eq!(i.read_i8(), Ok(-2i8));
}

#[test]
fn bit_stream_test_write_read_two_bytes() {
    let mut o = OutputBitStream::default();
    o.write_u16(0u16);
    o.write_u16(100u16);
    o.write_u16(65535u16);
    o.write_i16(-2i16);

    let mut i = InputBitStream::new(o.buffer());
    assert_eq!(i.read_u16(), Ok(0));
    assert_eq!(i.read_u16(), Ok(100));
    assert_eq!(i.read_u16(), Ok(65535));
    assert_eq!(i.read_i16(), Ok(-2i16));
}

#[test]
fn bit_stream_test_write_read_four_bytes() {
    let mut o = OutputBitStream::default();
    o.write_u32(0u32);
    o.write_u32(100u32);
    o.write_u32(4294967295u32);
    o.write_i32(-2i32);

    let mut i = InputBitStream::new(o.buffer());
    assert_eq!(i.read_u32(), Ok(0));
    assert_eq!(i.read_u32(), Ok(100));
    assert_eq!(i.read_u32(), Ok(4294967295));
    assert_eq!(i.read_i32(), Ok(-2i32));
}

#[test]
fn bit_stream_test_write_read_eight_bytes() {
    let mut o = OutputBitStream::default();
    o.write_u64(0u64);
    o.write_u64(100u64);
    o.write_u64(17446744073709552000);
    o.write_i64(-2i64);

    let mut i = InputBitStream::new(o.buffer());
    assert_eq!(i.read_u64(), Ok(0));
    assert_eq!(i.read_u64(), Ok(100));
    assert_eq!(i.read_u64(), Ok(17446744073709552000));
    assert_eq!(i.read_i64(), Ok(-2i64));
}

#[test]
fn bit_stream_test_write_read_f32() {
    let mut o = OutputBitStream {
        ..Default::default()
    };
    o.write_u32(1.234f32.to_bits());
    o.write_u32((-1.234f32).to_bits());
    o.write_u32(f32::MAX.to_bits());
    let mut i = InputBitStream::new(o.buffer());
    assert_eq!(1.234, f32::from_bits(i.read_u32().unwrap()));
    assert_eq!(-1.234, f32::from_bits(i.read_u32().unwrap()));
    assert_eq!(f32::MAX, f32::from_bits(i.read_u32().unwrap()));
}

#[test]
fn bit_stream_test_write_read_string() {
    let mut o = OutputBitStream::default();
    o.write_string(&"hello world!".to_string());
    let mut i = InputBitStream::new(o.buffer());
    assert_eq!("hello world!", i.read_string().unwrap().as_str());
}

#[test]
fn bit_stream_test_write_read_all() {
    let mut o = OutputBitStream::default();
    o.write_bool(true);
    o.write_i8(127);
    o.write_i16(30000);
    o.write_i32(65536);
    o.write_i64(-5611626018427388000);
    o.write_u32(123.456f32.to_bits());
    o.write_string(&"hello world!".to_string());

    let mut i = InputBitStream::new(o.buffer());
    assert_eq!(Ok(true), i.read_bool());
    assert_eq!(Ok(127), i.read_i8());
    assert_eq!(Ok(30000), i.read_i16());
    assert_eq!(Ok(65536), i.read_i32());
    assert_eq!(Ok(-5611626018427388000), i.read_i64());
    assert_eq!(123.456, f32::from_bits(i.read_u32().unwrap()));
    assert_eq!("hello world!", i.read_string().unwrap().as_str());
}

#[test]
fn bit_default_is_empty() {
    let o = OutputBitStream::default();
    assert_eq!(o.bit_head, 0);
    assert_eq!(o.buf.len(), 1024);
    assert!(o.buf.iter().all(|b| *b == 0));
    assert_eq!(o.buffer().len(), 0);
    let mut i = InputBitStream::default();
    assert_eq!(i.bit_head, 0);
    assert_eq!(i.buf.len(), 0);
    assert!(i.endianness == Endianness::BigEndian);
    assert_eq!(i.read_bool(), Err(StreamError::OutOfBounds));
}

#[test]
fn bit_bool_takes_one_bit() {
    let mut o = OutputBitStream::default();
    for v in [true, false, true, true, false, false, true, false, true] {
        o.write_bool(v);
    }
    assert_eq!(o.bit_head, 9);
    assert_eq!(o.buffer(), [0b0100_1101, 0b0000_0001]);
    let mut i = InputBitStream::new(o.buffer());
    for v in [true, false, true, true, false, false, true, false, true] {
        assert_eq!(i.read_bool(), Ok(v));
    }
    assert_eq!(i.bit_head, 9);
}

#[test]
fn bit_aligned_layout_is_most_significant_byte_first() {
    let mut o = OutputBitStream::default();
    o.write_u16(0x0102);
    o.write_u32(0x0304_0506);
    o.write_u64(0x0708_090a_0b0c_0d0e);
    assert_eq!(o.bit_head, 112);
    assert_eq!(o.buffer(), [1, 2, 3, 4, 5, 6, 7, 8, 9, 10, 11, 12, 13, 14]);
}

#[test]
fn bit_full_byte_at_every_offset() {
    for lead in 0..8usize {
        for v in [0u8, 1, 0x55, 0x80, 0xaa, 0xfe, 0xff] {
            let mut o = OutputBitStream::default();
            for k in 0..lead {
                o.write_bool(k % 2 == 0);
            }
            o.write_u8(v);
            o.write_bool(true);
            assert_eq!(o.bit_head, lead + 9);
            assert_eq!(o.buffer().len(), (lead + 9 + 7) / 8);
            let mut i = InputBitStream::new(o.buffer());
            for k in 0..lead {
                assert_eq!(i.read_bool(), Ok(k % 2 == 0));
            }
            assert_eq!(i.read_u8(), Ok(v));
            assert_eq!(i.read_bool(), Ok(true));
        }
    }
}

#[test]
fn bit_unaligned_layout_exact_bytes() {
    let mut o = OutputBitStream::default();
    o.write_bool(true);
    o.write_u8(0xff);
    assert_eq!(o.buffer(), [0xff, 0x01]);
    let mut p = OutputBitStream::default();
    p.write_bool(false);
    p.write_bool(true);
    p.write_bool(true);
    p.write_u16(0x8001);
    assert_eq!(p.bit_head, 19);
    assert_eq!(p.buffer(), [0b0000_0110, 0b0000_1100, 0b0000_0000]);
}

#[test]
fn bit_later_write_keeps_earlier_bits() {
    let mut o = OutputBitStream::default();
    o.write_bool(true);
    o.write_bool(true);
    o.write_bool(true);
    assert_eq!(o.buffer(), [0b0000_0111]);
    o.write_u8(0);
    assert_eq!(o.buffer(), [0b0000_0111, 0]);
    o.write_bool(true);
    assert_eq!(o.buffer(), [0b0000_0111, 0b0000_1000]);
}

#[test]
fn bit_write_clears_stale_bits_past_the_cursor() {
    let mut o = OutputBitStream { buf: vec![0xff; 4], bit_head: 3 };
    o.write_bool(false);
    assert_eq!(o.buf, vec![0b0000_0111, 0xff, 0xff, 0xff]);
    o.write_u8(0);
    assert_eq!(o.buf, vec![0b0000_0111, 0, 0xff, 0xff]);
    assert_eq!(o.buffer(), [0b0000_0111, 0]);
}

#[test]
fn bit_round_trip_edges() {
    let mut o = OutputBitStream::default();
    o.write_bool(true);
    for v in [u8::MIN, 1, 0x7f, 0x80, u8::MAX] {
        o.write_u8(v);
    }
    for v in [i8::MIN, -1, 0, 1, i8::MAX] {
        o.write_i8(v);
    }
    o.write_bool(false);
    for v in [u16::MIN, 1, 0x00ff, 0x0100, 0x7fff, 0x8000, u16::MAX] {
        o.write_u16(v);
    }
    for v in [i16::MIN, -1, 0, 1, i16::MAX] {
        o.write_i16(v);
    }
    o.write_bool(true);
    for v in [u32::MIN, 1, 0x7fff_ffff, 0x8000_0000, u32::MAX] {
        o.write_u32(v);
    }
    for v in [i32::MIN, -1, 0, 1, i32::MAX] {
        o.write_i32(v);
    }
    o.write_bool(true);
    for v in [u64::MIN, 1, 0x7fff_ffff_ffff_ffff, 0x8000_0000_0000_0000, u64::MAX] {
        o.write_u64(v);
    }
    for v in [i64::MIN, -1, 0, 1, i64::MAX] {
        o.write_i64(v);
    }
    let mut i = InputBitStream::new(o.buffer());
    assert_eq!(i.read_bool(), Ok(true));
    for v in [u8::MIN, 1, 0x7f, 0x80, u8::MAX] {
        assert_eq!(i.read_u8(), Ok(v));
    }
    for v in [i8::MIN, -1, 0, 1, i8::MAX] {
        assert_eq!(i.read_i8(), Ok(v));
    }
    assert_eq!(i.read_bool(), Ok(false));
    for v in [u16::MIN, 1, 0x00ff, 0x0100, 0x7fff, 0x8000, u16::MAX] {
        assert_eq!(i.read_u16(), Ok(v));
    }
    for v in [i16::MIN, -1, 0, 1, i16::MAX] {
        assert_eq!(i.read_i16(), Ok(v));
    }
    assert_eq!(i.read_bool(), Ok(true));
    for v in [u32::MIN, 1, 0x7fff_ffff, 0x8000_0000, u32::MAX] {
        assert_eq!(i.read_u32(), Ok(v));
    }
    for v in [i32::MIN, -1, 0, 1, i32::MAX] {
        assert_eq!(i.read_i32(), Ok(v));
    }
    assert_eq!(i.read_bool(), Ok(true));
    for v in [u64::MIN, 1, 0x7fff_ffff_ffff_ffff, 0x8000_0000_0000_0000, u64::MAX] {
        assert_eq!(i.read_u64(), Ok(v));
    }
    for v in [i64::MIN, -1, 0, 1, i64::MAX] {
        assert_eq!(i.read_i64(), Ok(v));
    }
    assert_eq!(i.bit_head, o.bit_head);
    assert_eq!(i.read_u8(), Err(StreamError::OutOfBounds));
}

#[test]
fn bit_float_bit_patterns_round_trip() {
    let patterns = [
        0.0f32.to_bits(),
        (-0.0f32).to_bits(),
        f32::MIN_POSITIVE.to_bits(),
        f32::INFINITY.to_bits(),
        f32::NEG_INFINITY.to_bits(),
        f32::NAN.to_bits(),
        0x7fc0_0001,
    ];
    let mut o = OutputBitStream::default();
    o.write_bool(true);
    for p in patterns {
        o.write_u32(p);
    }
    let mut i = InputBitStream::new(o.buffer());
    assert_eq!(i.read_bool(), Ok(true));
    for p in patterns {
        assert_eq!(f32::from_bits(i.read_u32().unwrap()).to_bits(), p);
    }
}

#[test]
fn bit_reader_little_endian_puts_bytes_together_in_reverse() {
    let source = [1u8, 2, 3, 4, 5, 6, 7, 8, 9, 10, 11, 12, 13, 14];
    let mut b = InputBitStream::new(&source);
    assert_eq!(b.read_u16(), Ok(0x0102));
    assert_eq!(b.read_u32(), Ok(0x0304_0506));
    assert_eq!(b.read_u64(), Ok(0x0708_090a_0b0c_0d0e));
    let mut l = InputBitStream { buf: &source, bit_head: 0, endianness: Endianness::LittleEndian };
    assert_eq!(l.read_u16(), Ok(0x0201));
    assert_eq!(l.read_u32(), Ok(0x0605_0403));
    assert_eq!(l.read_u64(), Ok(0x0e0d_0c0b_0a09_0807));
}

#[test]
fn bit_string_layout_and_length() {
    let mut o = OutputBitStream::default();
    o.write_string(&"hello world!".to_string());
    assert_eq!(o.bit_head, 8 * (4 + 12));
    assert_eq!(o.buffer().len(), 4 + 12);
    assert_eq!(&o.buffer()[..4], [0, 0, 0, 12]);
    assert_eq!(&o.buffer()[4..], "hello world!".as_bytes());
}

#[test]
fn bit_string_unaligned_round_trip() {
    let text = "h\u{e9}llo \u{4e16}\u{754c} \u{1f600}".to_string();
    let mut o = OutputBitStream::default();
    o.write_bool(true);
    o.write_string(&text);
    o.write_bool(true);
    assert_eq!(o.bit_head, 1 + 8 * (4 + 18) + 1);
    let mut i = InputBitStream::new(o.buffer());
    assert_eq!(i.read_bool(), Ok(true));
    assert_eq!(i.read_string(), Ok(text));
    assert_eq!(i.read_bool(), Ok(true));
}

#[test]
fn bit_empty_string_round_trip() {
    let mut o = OutputBitStream::default();
    o.write_bool(true);
    o.write_string(&String::new());
    o.write_u8(7);
    assert_eq!(o.bit_head, 41);
    let mut i = InputBitStream::new(o.buffer());
    assert_eq!(i.read_bool(), Ok(true));
    assert_eq!(i.read_string(), Ok(String::new()));
    assert_eq!(i.read_u8(), Ok(7));
}

#[test]
fn bit_read_past_end_is_refused() {
    let empty: [u8; 0] = [];
    let mut i = InputBitStream::new(&empty);
    assert_eq!(i.read_bool(), Err(StreamError::OutOfBounds));
    assert_eq!(i.read_u8(), Err(StreamError::OutOfBounds));
    assert_eq!(i.read_i8(), Err(StreamError::OutOfBounds));
    assert_eq!(i.read_u16(), Err(StreamError::OutOfBounds));
    assert_eq!(i.read_i16(), Err(StreamError::OutOfBounds));
    assert_eq!(i.read_u32(), Err(StreamError::OutOfBounds));
    assert_eq!(i.read_i32(), Err(StreamError::OutOfBounds));
    assert_eq!(i.read_u64(), Err(StreamError::OutOfBounds));
    assert_eq!(i.read_i64(), Err(StreamError::OutOfBounds));
    assert_eq!(i.read_string(), Err(StreamError::OutOfBounds));
    assert_eq!(i.bit_head, 0);
}

#[test]
fn bit_refused_read_leaves_reader_in_place() {
    let source = [0b1010_0101u8, 0x0f];
    let mut i = InputBitStream::new(&source);
    assert_eq!(i.read_bool(), Ok(true));
    assert_eq!(i.read_u16(), Err(StreamError::OutOfBounds));
    assert_eq!(i.bit_head, 1);
    assert_eq!(i.read_u8(), Ok(0b1101_0010));
    assert_eq!(i.bit_head, 9);
    assert_eq!(i.read_u8(), Err(StreamError::OutOfBounds));
    assert_eq!(i.bit_head, 9);
    for v in [true, true, true, false, false, false, false] {
        assert_eq!(i.read_bool(), Ok(v));
    }
    assert_eq!(i.read_bool(), Err(StreamError::OutOfBounds));
    assert_eq!(i.bit_head, 16);
}

#[test]
fn bit_cursor_past_the_source_is_refused() {
    let source = [1u8, 2];
    let mut i = InputBitStream { buf: &source, bit_head: 16, endianness: Endianness::BigEndian };
    assert_eq!(i.read_bool(), Err(StreamError::OutOfBounds));
    let mut j = InputBitStream { buf: &source, bit_head: 400, endianness: Endianness::BigEndian };
    assert_eq!(j.read_u8(), Err(StreamError::OutOfBounds));
    assert_eq!(j.read_u64(), Err(StreamError::OutOfBounds));
    let mut k =
        InputBitStream { buf: &source, bit_head: usize::MAX, endianness: Endianness::BigEndian };
    assert_eq!(k.read_bool(), Err(StreamError::OutOfBounds));
    assert_eq!(k.read_u32(), Err(StreamError::OutOfBounds));
    assert_eq!(k.read_string(), Err(StreamError::OutOfBounds));
    assert_eq!(k.bit_head, usize::MAX);
}

#[test]
fn bit_string_longer_than_source_is_refused() {
    let source = [0u8, 0, 0, 5, b'a', b'b', b'c', b'd'];
    let mut i = InputBitStream::new(&source);
    assert_eq!(i.read_string(), Err(StreamError::OutOfBounds));
    assert_eq!(i.bit_head, 0);
    assert_eq!(i.read_u32(), Ok(5));
    let huge = [255u8, 255, 255, 255, b'a'];
    let mut j = InputBitStream::new(&huge);
    assert_eq!(j.read_string(), Err(StreamError::OutOfBounds));
    assert_eq!(j.bit_head, 0);
}

#[test]
fn bit_malformed_text_is_refused() {
    let source = [0u8, 0, 0, 2, 0xc3, 0x28, 9];
    let mut i = InputBitStream::new(&source);
    assert_eq!(i.read_string(), Err(StreamError::MalformedText));
    assert_eq!(i.bit_head, 0);
    assert_eq!(i.read_u32(), Ok(2));
    assert_eq!(i.read_u16(), Ok(0xc328));
    assert_eq!(i.read_u8(), Ok(9));
    let overlong = [0u8, 0, 0, 2, 0xc0, 0xaf];
    let mut l = InputBitStream::new(&overlong);
    assert_eq!(l.read_string(), Err(StreamError::MalformedText));
}

#[test]
fn bit_growth_preserves_data() {
    let mut o = OutputBitStream::default();
    o.write_bool(true);
    let count: u32 = 1500;
    for v in 0..count {
        o.write_u32(v.wrapping_mul(2654435761));
    }
    assert_eq!(o.bit_head, 1 + 32 * 1500);
    assert_eq!(o.buf.len(), 8192);
    assert_eq!(o.buffer().len(), 6001);
    let mut i = InputBitStream::new(o.buffer());
    assert_eq!(i.read_bool(), Ok(true));
    for v in 0..count {
        assert_eq!(i.read_u32(), Ok(v.wrapping_mul(2654435761)));
    }
}

#[test]
fn bit_growth_doubles_at_the_boundary() {
    let mut o = OutputBitStream::default();
    for _ in 0..1023 {
        o.write_u8(0xab);
    }
    for _ in 0..6 {
        o.write_bool(true);
    }
    assert_eq!(o.bit_head, 8 * 1024 - 2);
    assert_eq!(o.buf.len(), 1024);
    o.write_u8(0xff);
    assert_eq!(o.bit_head, 8 * 1024 + 6);
    assert_eq!(o.buf.len(), 2048);
    assert!(o.buf[..1023].iter().all(|b| *b == 0xab));
    assert_eq!(o.buf[1023], 0xff);
    assert_eq!(o.buf[1024], 0x3f);
    assert!(o.buf[1025..].iter().all(|b| *b == 0));
}

#[test]
fn bit_growth_fits_exactly_when_doubling_falls_short() {
    let text: String = "x".repeat(3000);
    let mut o = OutputBitStream::default();
    o.write_bool(true);
    o.write_string(&text);
    assert_eq!(o.bit_head, 1 + 8 * 3004);
    assert_eq!(o.buf.len(), 3005);
    o.write_u8(2);
    assert_eq!(o.buf.len(), 6010);
    let mut i = InputBitStream::new(o.buffer());
    assert_eq!(i.read_bool(), Ok(true));
    assert_eq!(i.read_string(), Ok(text));
    assert_eq!(i.read_u8(), Ok(2));
}

#[test]
fn bit_growth_from_an_empty_buffer() {
    let mut o = OutputBitStream { buf: Vec::new(), bit_head: 0 };
    o.write_bool(true);
    assert_eq!(o.buf.len(), 1);
    o.write_u8(0xff);
    assert_eq!(o.buf.len(), 2);
    o.write_u32(0);
    assert_eq!(o.buf.len(), 6);
    assert_eq!(o.buffer(), [0xff, 0x01, 0, 0, 0, 0]);
}

#[test]
fn bit_buffer_is_idempotent() {
    let mut o = OutputBitStream::default();
    o.write_bool(true);
    o.write_u32(0xdead_beef);
    o.write_string(&"abc".to_string());
    let first = o.buffer().to_vec();
    let second = o.buffer().to_vec();
    let third = o.buffer().to_vec();
    assert_eq!(first, second);
    assert_eq!(second, third);
    assert_eq!(first.len(), 12);
}
