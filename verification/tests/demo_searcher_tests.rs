use demoparser::demo_cmd::EDemoCommands;
use demoparser::demo_searcher::{front_demo_metadata, read_short_header, MetadataFrame};
use demoparser::error::DemoParserError;

fn demo() -> Vec<u8> {
    let mut b = vec![0u8; 16];
    b.extend_from_slice(&[1, 0, 2, 0xAA, 0xBB]); // file header at 16, payload 19..21
    b.extend_from_slice(&[7, 5, 1, 0xCC]); // packet at 21, skipped
    b.extend_from_slice(&[13, 6, 0]); // full packet at 25
    b.extend_from_slice(&[4 | 64, 7, 1, 0xDD]); // compressed send tables at 28, payload 31
    b.extend_from_slice(&[0, 8, 0]); // stop at 32
    b.extend_from_slice(&[13, 9, 0]); // after the stop: not looked at
    b
}

#[test]
fn walk_to_stop() {
    let (offsets, frames) = front_demo_metadata(&demo()).unwrap();
    assert_eq!(offsets, vec![16, 25]);
    assert_eq!(
        frames,
        vec![
            MetadataFrame { demo_cmd: EDemoCommands::DemFileHeader, is_compressed: false, start: 19, size: 2 },
            MetadataFrame { demo_cmd: EDemoCommands::DemSendTables, is_compressed: true, start: 31, size: 1 },
        ]
    );
}

#[test]
fn walk_runs_out_of_bytes() {
    let mut d = demo();
    d.truncate(33);
    assert_eq!(front_demo_metadata(&d), Err(DemoParserError::OutOfBytesError));
    assert_eq!(front_demo_metadata(&[0u8; 10]), Err(DemoParserError::OutOfBytesError));
    let mut long = vec![0u8; 16];
    long.extend_from_slice(&[1, 0, 50, 1]);
    assert_eq!(front_demo_metadata(&long), Err(DemoParserError::OutOfBytesError));
}

#[test]
fn short_header_checks() {
    let mut h = b"PBDEMS2\0".to_vec();
    h.extend_from_slice(&[0x10, 0x27, 0, 0, 9, 9, 9, 9]);
    assert_eq!(read_short_header(&h), Ok(10000 + 18));
    let mut s1 = b"HL2DEMO\0".to_vec();
    s1.extend_from_slice(&[0u8; 8]);
    assert_eq!(read_short_header(&s1), Err(DemoParserError::Source1DemoError));
    let mut other = b"ABCDEFGH".to_vec();
    other.extend_from_slice(&[0u8; 8]);
    assert_eq!(read_short_header(&other), Err(DemoParserError::UnknownFile));
    let mut binary = vec![0xFFu8; 8];
    binary.extend_from_slice(&[0xFF, 0xFF, 0xFF, 0xFF, 0, 0, 0, 0]);
    assert_eq!(read_short_header(&binary), Ok(17));
    assert_eq!(read_short_header(&h[..15]), Err(DemoParserError::OutOfBytesError));
}
