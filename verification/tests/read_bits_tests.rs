use demoparser::error::DemoParserError;
use demoparser::read_bits::Bitreader;

#[test]
fn nbits_little_endian() {
    let bytes = [0xABu8, 0xCD];
    let mut r = Bitreader::new(&bytes);
    assert_eq!(r.read_nbits(4), Ok(0xB));
    assert_eq!(r.read_nbits(4), Ok(0xA));
    assert_eq!(r.read_nbits(8), Ok(0xCD));
    assert_eq!(r.read_nbits(1), Err(DemoParserError::OutOfBitsError));
}

#[test]
fn nbits_full_word() {
    let bytes = [0x78u8, 0x56, 0x34, 0x12, 0xFF];
    let mut r = Bitreader::new(&bytes);
    assert_eq!(r.read_nbits(32), Ok(0x1234_5678));
    assert_eq!(r.bits_remaining(), Some(8));
}

#[test]
fn nbits_failure_keeps_bits() {
    let bytes = [0xFFu8];
    let mut r = Bitreader::new(&bytes);
    assert_eq!(r.read_nbits(9), Err(DemoParserError::OutOfBitsError));
    assert_eq!(r.bits_remaining(), Some(8));
    assert_eq!(r.read_nbits(8), Ok(0xFF));
}

#[test]
fn boolean_reads_lowest_bit_first() {
    let bytes = [0b0000_0010u8];
    let mut r = Bitreader::new(&bytes);
    assert_eq!(r.read_boolean(), Ok(false));
    assert_eq!(r.read_boolean(), Ok(true));
    assert_eq!(r.bits_remaining(), Some(6));
}

#[test]
fn boolean_out_of_bits() {
    let bytes: [u8; 0] = [];
    let mut r = Bitreader::new(&bytes);
    assert_eq!(r.read_boolean(), Err(DemoParserError::OutOfBitsError));
}

#[test]
fn u_bit_var_short_and_long() {
    // Six bits 0b000101 (no extra bits): 5.
    let bytes = [0b0000_0101u8];
    let mut r = Bitreader::new(&bytes);
    assert_eq!(r.read_u_bit_var(), Ok(5));
    // Six bits 0b010101 select four more bits (0b0011): 5 | 3 << 4.
    let bytes = [0xD5u8, 0x00];
    let mut r = Bitreader::new(&bytes);
    assert_eq!(r.read_u_bit_var(), Ok(53));
    assert_eq!(r.bits_remaining(), Some(6));
}

#[test]
fn varint_over_bits() {
    let bytes = [0x96u8, 0x01];
    let mut r = Bitreader::new(&bytes);
    assert_eq!(r.read_varint(), Ok(150));
    let bytes = [0x80u8];
    let mut r = Bitreader::new(&bytes);
    assert_eq!(r.read_varint(), Err(DemoParserError::OutOfBitsError));
}

#[test]
fn varint32_zigzag() {
    let mut r = Bitreader::new(&[3u8]);
    assert_eq!(r.read_varint32(), Ok(-2));
    let mut r = Bitreader::new(&[4u8]);
    assert_eq!(r.read_varint32(), Ok(2));
    let mut r = Bitreader::new(&[0x01u8]);
    assert_eq!(r.read_varint32(), Ok(-1));
}

#[test]
fn zigzag_roundtrip_values() {
    for n in [0i32, 1, -1, 63, -64, 1000, -1000, 0x3fff_ffff, -0x4000_0000] {
        let code = ((n << 1) ^ (n >> 31)) as u32;
        let mut enc = vec![];
        let mut m = code;
        while m >= 128 {
            enc.push(((m & 127) | 128) as u8);
            m >>= 7;
        }
        enc.push(m as u8);
        let mut r = Bitreader::new(&enc);
        assert_eq!(r.read_varint32(), Ok(n));
    }
}

#[test]
fn varint_u64() {
    let mut r = Bitreader::new(&[0x96u8, 0x01]);
    assert_eq!(r.read_varint_u_64(), Ok(150));
    let bytes = [0xFFu8, 0xFF, 0xFF, 0xFF, 0xFF, 0xFF, 0xFF, 0xFF, 0xFF, 0x01];
    let mut r = Bitreader::new(&bytes);
    assert_eq!(r.read_varint_u_64(), Ok(u64::MAX));
}

#[test]
fn ubit_var_fp_widths() {
    // First flag set: two bits follow.
    let mut r = Bitreader::new(&[0b0000_0111u8]);
    assert_eq!(r.read_ubit_var_fp(), Ok(3));
    assert_eq!(r.bits_remaining(), Some(5));
    // Second flag set: four bits follow.
    let mut r = Bitreader::new(&[0b0010_1010u8]);
    assert_eq!(r.read_ubit_var_fp(), Ok(0b1010));
    // No flag set: 31 bits follow.
    let bytes = [0x00u8, 0x00, 0x00, 0x00, 0x00];
    let mut r = Bitreader::new(&bytes);
    assert_eq!(r.read_ubit_var_fp(), Ok(0));
    assert_eq!(r.bits_remaining(), Some(5));
}

#[test]
fn n_bytes() {
    let bytes = [1u8, 2, 3];
    let mut r = Bitreader::new(&bytes);
    assert_eq!(r.read_n_bytes(2), Ok(vec![1, 2]));
    match r.read_n_bytes(5) {
        Err(DemoParserError::FailedByteRead(msg)) => assert_eq!(
            msg,
            "Failed to read message/command. bytes left in stream: 1, requested bytes: 5"
        ),
        other => panic!("unexpected {:?}", other),
    }
    assert_eq!(r.read_n_bytes(1), Ok(vec![3]));
}

#[test]
fn n_bytes_unaligned() {
    let bytes = [0xF1u8, 0x2F];
    let mut r = Bitreader::new(&bytes);
    assert_eq!(r.read_nbits(4), Ok(1));
    assert_eq!(r.read_n_bytes(1), Ok(vec![0xFF]));
}

#[test]
fn n_bytes_mut() {
    let bytes = [9u8, 8, 7];
    let mut r = Bitreader::new(&bytes);
    let mut buf = vec![0u8; 4];
    assert_eq!(r.read_n_bytes_mut(2, &mut buf), Ok(()));
    assert_eq!(buf, vec![9, 8, 0, 0]);
    assert!(matches!(r.read_n_bytes_mut(3, &mut buf), Err(DemoParserError::FailedByteRead(_))));
    assert_eq!(buf, vec![9, 8, 0, 0]);
}

#[test]
fn ammo_is_one_less() {
    let mut r = Bitreader::new(&[31u8, 0]);
    assert_eq!(r.decode_ammo(), Ok(30));
    assert_eq!(r.decode_ammo(), Ok(0));
    let empty: [u8; 0] = [];
    let mut e = Bitreader::new(&empty);
    assert_eq!(e.decode_ammo(), Err(DemoParserError::OutOfBitsError));
}

#[test]
fn uint64_from_eight_bytes() {
    let bytes = [1u8, 2, 3, 4, 5, 6, 7, 8, 9];
    let mut r = Bitreader::new(&bytes);
    assert_eq!(r.decode_uint64(), Ok(u64::from_ne_bytes([1, 2, 3, 4, 5, 6, 7, 8])));
    assert_eq!(r.bits_remaining(), Some(8));
    assert!(matches!(r.decode_uint64(), Err(DemoParserError::FailedByteRead(_))));
}

#[test]
fn zero_terminated_strings() {
    let bytes = *b"hello\0world\0x";
    let mut r = Bitreader::new(&bytes);
    assert_eq!(r.read_string(), Ok("hello".to_string()));
    assert_eq!(r.read_string(), Ok("world".to_string()));
    assert_eq!(r.read_string(), Err(DemoParserError::OutOfBitsError));
    let utf8 = "é\0".as_bytes().to_vec();
    let mut u = Bitreader::new(&utf8);
    assert_eq!(u.read_string(), Ok("é".to_string()));
    let invalid = vec![0xFFu8, b'A', 0];
    let mut v = Bitreader::new(&invalid);
    assert_eq!(v.read_string(), Ok("\u{FFFD}A".to_string()));
}
