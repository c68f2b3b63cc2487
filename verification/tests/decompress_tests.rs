use demoparser::decompress::{decompress_if_needed, resize_if_needed, slice_packet_bytes};
use demoparser::demo_cmd::EDemoCommands;
use demoparser::error::DemoParserError;
use demoparser::frameparser::Frame;

fn frame(is_compressed: bool) -> Frame {
    Frame {
        size: 0,
        tick: 0,
        frame_starts_at: 0,
        frame_ends_at: 0,
        is_compressed,
        demo_cmd: EDemoCommands::DemPacket,
    }
}

#[test]
fn uncompressed_payload_is_passed_through() {
    let mut buf = vec![9u8; 3];
    let bytes = [1u8, 2, 3, 4];
    let out = decompress_if_needed(&mut buf, &bytes, &frame(false)).unwrap();
    assert_eq!(out, &bytes[..]);
}

#[test]
fn compressed_payload_is_decompressed() {
    let data = b"counter-strike counter-strike counter-strike demo".to_vec();
    let compressed = snap::raw::Encoder::new().compress_vec(&data).unwrap();
    let mut buf: Vec<u8> = Vec::new();
    let out = decompress_if_needed(&mut buf, &compressed, &frame(true)).unwrap().to_vec();
    assert_eq!(out, data);
    // A buffer longer than needed keeps its tail.
    let mut long = vec![7u8; 100];
    let out = decompress_if_needed(&mut long, &compressed, &frame(true)).unwrap().to_vec();
    assert_eq!(out, data);
    assert_eq!(long.len(), 100);
    assert_eq!(long[99], 7);
}

#[test]
fn broken_payloads_fail() {
    let mut buf: Vec<u8> = Vec::new();
    let empty: [u8; 0] = [];
    assert!(matches!(
        decompress_if_needed(&mut buf, &empty, &frame(true)),
        Err(DemoParserError::DecompressionFailure(_))
    ));
    let bad_header = [0xFFu8; 6];
    assert!(matches!(
        decompress_if_needed(&mut buf, &bad_header, &frame(true)),
        Err(DemoParserError::DecompressionFailure(_))
    ));
    // Announces 5 bytes but holds a literal of 1.
    let short = [5u8, 0x00, b'a'];
    assert!(matches!(
        decompress_if_needed(&mut buf, &short, &frame(true)),
        Err(DemoParserError::DecompressionFailure(_))
    ));
}

#[test]
fn buffers_grow_with_zeros() {
    let mut buf = vec![1u8, 2];
    resize_if_needed(&mut buf, Ok(5)).unwrap();
    assert_eq!(buf, vec![1, 2, 0, 0, 0]);
    resize_if_needed(&mut buf, Ok(3)).unwrap();
    assert_eq!(buf, vec![1, 2, 0, 0, 0]);
    let err = snap::raw::decompress_len(&[0x80u8, 0x80, 0x80, 0x80, 0x80, 0x01]).unwrap_err();
    let res = resize_if_needed(&mut buf, Err(err));
    assert!(matches!(res, Err(DemoParserError::DecompressionFailure(_))));
    assert_eq!(buf.len(), 5);
}

#[test]
fn packet_bytes_must_end_before_the_demo_does() {
    let demo = [0u8, 1, 2, 3, 4, 5];
    assert_eq!(slice_packet_bytes(1, &demo, 3).unwrap(), &[1u8, 2, 3][..]);
    assert_eq!(slice_packet_bytes(2, &demo, 3).unwrap(), &[2u8, 3, 4][..]);
    assert_eq!(slice_packet_bytes(3, &demo, 3).unwrap_err(), DemoParserError::MalformedMessage);
    assert_eq!(slice_packet_bytes(0, &demo, 0).unwrap(), &[] as &[u8]);
}
