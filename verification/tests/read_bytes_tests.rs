use demoparser::error::DemoParserError;
use demoparser::read_bytes::{read_varint, read_varint2, FullPacketParser, PacketEntitiesParser, ProtoPacketParser};

#[test]
fn varint_single_byte() {
    let bytes = [0x05u8, 0x07];
    let mut ptr = 0;
    assert_eq!(read_varint(&bytes, &mut ptr), Ok(5));
    assert_eq!(ptr, 1);
    assert_eq!(read_varint(&bytes, &mut ptr), Ok(7));
    assert_eq!(ptr, 2);
}

#[test]
fn varint_two_bytes() {
    let bytes = [0x96u8, 0x01];
    let mut ptr = 0;
    assert_eq!(read_varint(&bytes, &mut ptr), Ok(150));
    assert_eq!(ptr, 2);
}

#[test]
fn varint_five_bytes_max() {
    let bytes = [0xffu8, 0xff, 0xff, 0xff, 0x0f];
    let mut ptr = 0;
    assert_eq!(read_varint(&bytes, &mut ptr), Ok(u32::MAX));
    assert_eq!(ptr, 5);
}

#[test]
fn varint_stops_after_five_bytes() {
    let bytes = [0x81u8, 0x80, 0x80, 0x80, 0x80, 0x7f];
    let mut ptr = 0;
    assert_eq!(read_varint(&bytes, &mut ptr), Ok(1));
    assert_eq!(ptr, 5);
}

#[test]
fn varint_runs_out_of_bytes() {
    let bytes = [0x80u8, 0x80];
    let mut ptr = 0;
    assert_eq!(read_varint(&bytes, &mut ptr), Err(DemoParserError::OutOfBytesError));
    assert_eq!(ptr, 2);
    let mut past = 5;
    assert_eq!(read_varint(&bytes, &mut past), Err(DemoParserError::OutOfBytesError));
    assert_eq!(past, 5);
}

#[test]
fn varint_roundtrip_of_standard_encoding() {
    for n in [0u32, 1, 127, 128, 300, 16_383, 16_384, 2_097_151, 268_435_455, u32::MAX] {
        let mut enc = vec![];
        let mut m = n;
        while m >= 128 {
            enc.push(((m & 127) | 128) as u8);
            m >>= 7;
        }
        enc.push(m as u8);
        let len = enc.len();
        enc.push(0x55);
        let mut ptr = 0;
        assert_eq!(read_varint(&enc, &mut ptr), Ok(n));
        assert_eq!(ptr, len);
    }
}

#[test]
fn varint2_position_quirk() {
    // Ending on a byte without continuation bit: one past the varint.
    assert_eq!(read_varint2(&[0x96u8, 0x01, 0x00], 0), Ok((150, 3)));
    // Ending after five bytes with continuation bits: right behind it.
    assert_eq!(read_varint2(&[0x81u8, 0x80, 0x80, 0x80, 0x80, 0x00], 0), Ok((1, 5)));
    assert_eq!(read_varint2(&[0x80u8], 0), Err(DemoParserError::OutOfBytesError));
}

#[test]
fn packet_entities_fields() {
    // max_entries = 5, updated_entries = 3, is_delta = 1, entity data of 2 bytes, then tag 0 ends.
    let bytes = [8u8, 5, 16, 3, 24, 1, 58, 2, 0xAA, 0xBB, 0, 0];
    let mut p = PacketEntitiesParser::new(&bytes);
    assert_eq!(p.parse_message(), Ok(()));
    assert_eq!(p.max_entries, 5);
    assert_eq!(p.updated_entries, 3);
    assert!(p.is_delta);
    assert_eq!(p.data_start, 8);
    assert_eq!(p.data_end, 10);
    assert_eq!(p.ptr, 11);
}

#[test]
fn packet_entities_other_fields() {
    let bytes = [32u8, 1, 40, 7, 48, 9, 64, 1, 72, 11, 80, 12, 88, 13, 96, 14, 114, 122, 0];
    let mut p = PacketEntitiesParser::new(&bytes);
    assert_eq!(p.parse_message(), Ok(()));
    assert!(p.update_baseline);
    assert_eq!(p.baseline, 7);
    assert_eq!(p.delta_from, 9);
    assert!(p.pending_full_frame);
    assert_eq!(p.active_spawngroup_handle, 11);
    assert_eq!(p.max_spawngroup_creationsequence, 12);
    assert_eq!(p.last_cmd_number, 13);
    assert_eq!(p.server_tick, 14);
}

#[test]
fn packet_entities_read_n_bytes() {
    let bytes = [1u8, 2, 3, 4];
    let mut p = PacketEntitiesParser::new(&bytes);
    assert_eq!(p.read_n_bytes(2), Ok(&bytes[0..2]));
    assert_eq!(p.ptr, 2);
    assert_eq!(p.read_n_bytes(2), Err(DemoParserError::OutOfBytesError));
    assert_eq!(p.ptr, 2);
}

#[test]
fn full_packet_locates_parts() {
    // string tables: 2 bytes; packet: 6 bytes, of which the first 4 are a length prefix.
    let bytes = [10u8, 2, 0xAA, 0xBB, 18, 6, 0, 0, 0, 0, 0xCC, 0xDD, 0];
    let mut p = FullPacketParser::new(&bytes);
    assert_eq!(p.parse_message(), Ok(()));
    assert_eq!(p.st_data_start, 2);
    assert_eq!(p.st_data_end, 4);
    assert_eq!(p.packet_data_start, 10);
    assert_eq!(p.packet_data_end, 12);
}

#[test]
fn full_packet_read_varint() {
    let bytes = [0x96u8, 0x01];
    let mut p = FullPacketParser::new(&bytes);
    assert_eq!(p.read_varint(), Ok(150));
    assert_eq!(p.ptr, 2);
}

#[test]
fn proto_packet_payload() {
    let bytes = [26u8, 3, 1, 2, 3];
    let mut p = ProtoPacketParser::new(&bytes);
    assert_eq!(p.read_proto_packet(), Ok(()));
    assert_eq!(p.start, 2);
    assert_eq!(p.end, 5);
    assert_eq!(p.ptr, 2);
}

#[test]
fn proto_packet_wrong_tag() {
    let bytes = [8u8, 3];
    let mut p = ProtoPacketParser::new(&bytes);
    assert_eq!(p.read_proto_packet(), Err(DemoParserError::MalformedMessage));
    assert_eq!(p.ptr, 1);
    assert_eq!(p.end, 0);
    let mut q = ProtoPacketParser::new(&bytes);
    assert_eq!(q.read_packet(99), Err(DemoParserError::MalformedMessage));
    assert_eq!(q.ptr, 0);
}

#[test]
fn proto_packet_empty_input() {
    let bytes: [u8; 0] = [];
    let mut p = ProtoPacketParser::new(&bytes);
    assert_eq!(p.read_proto_packet(), Err(DemoParserError::OutOfBytesError));
    assert_eq!(p.ptr, 0);
}
