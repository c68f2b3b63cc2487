use demoparser::frameparser::{check_all_bytes_are_covered, finish_ranges, OffsetSender, StartEndOffset, StartEndType};
use std::sync::mpsc::channel;

#[test]
fn test_byte_coverage_ok() {
    let (s, _) = channel();
    let sorted_offsets = vec![
        StartEndOffset { start: 16, end: 20, msg_type: StartEndType::OK },
        StartEndOffset { start: 20, end: 30, msg_type: StartEndType::OK },
        StartEndOffset { start: 30, end: 40, msg_type: StartEndType::OK },
    ];
    let is_ok = check_all_bytes_are_covered(sorted_offsets, 40, &mut OffsetSender::new(s));
    assert_eq!(is_ok, true);
}

#[test]
fn test_byte_coverage_not_ok_range_gap() {
    let (s, _) = channel();
    let sorted_offsets = vec![
        StartEndOffset { start: 16, end: 20, msg_type: StartEndType::OK },
        StartEndOffset { start: 20, end: 30, msg_type: StartEndType::OK },
        StartEndOffset { start: 40, end: 50, msg_type: StartEndType::OK },
    ];
    let is_ok = check_all_bytes_are_covered(sorted_offsets, 30, &mut OffsetSender::new(s));
    assert_eq!(is_ok, false);
}

#[test]
fn test_byte_coverage_not_ok_missing_start_byte() {
    let (s, _) = channel();
    let sorted_offsets = vec![
        StartEndOffset { start: 14, end: 20, msg_type: StartEndType::OK },
        StartEndOffset { start: 20, end: 30, msg_type: StartEndType::OK },
        StartEndOffset { start: 30, end: 40, msg_type: StartEndType::OK },
    ];
    let is_ok = check_all_bytes_are_covered(sorted_offsets, 50, &mut OffsetSender::new(s));
    assert_eq!(is_ok, false);
}

#[test]
fn test_byte_coverage_not_ok_missing_end_byte() {
    let (s, _) = channel();
    let sorted_offsets = vec![
        StartEndOffset { start: 16, end: 20, msg_type: StartEndType::OK },
        StartEndOffset { start: 20, end: 30, msg_type: StartEndType::OK },
        StartEndOffset { start: 30, end: 40, msg_type: StartEndType::OK },
    ];
    let is_ok = check_all_bytes_are_covered(sorted_offsets, 33, &mut OffsetSender::new(s));
    assert_eq!(is_ok, false);
}

use demoparser::demo_cmd::EDemoCommands;
use demoparser::error::DemoParserError;
use demoparser::frameparser::FrameParser;

/// A small demo: a 16-byte header, then frames (command, tick, size, payload).
fn small_demo() -> Vec<u8> {
    let mut bytes = vec![0u8; 16];
    bytes.extend_from_slice(&[13, 0, 0]); // full packet, tick 0, at 16
    bytes.extend_from_slice(&[7, 1, 1, 0xAA]); // packet, tick 1, at 19
    bytes.extend_from_slice(&[7, 2, 0]); // tick 2, at 23
    bytes.extend_from_slice(&[13, 3, 0]); // full packet, tick 3, at 26
    bytes.extend_from_slice(&[7, 4, 0]); // tick 4, at 29
    bytes.extend_from_slice(&[13, 5, 0]); // full packet, tick 5, at 32
    bytes.extend_from_slice(&[0, 6, 0]); // stop, tick 6, at 35
    bytes
}

#[test]
fn read_frame_reads_the_header() {
    let bytes = small_demo();
    let frame = FrameParser::read_frame(&bytes, 19).unwrap();
    assert_eq!(frame.size, 1);
    assert_eq!(frame.tick, 1);
    assert_eq!(frame.frame_starts_at, 19);
    assert_eq!(frame.frame_ends_at, 22);
    assert_eq!(frame.is_compressed, false);
    assert_eq!(frame.demo_cmd, EDemoCommands::DemPacket);
}

#[test]
fn read_frame_compressed_flag() {
    let bytes = vec![13 | 64, 5, 0];
    let frame = FrameParser::read_frame(&bytes, 0).unwrap();
    assert!(frame.is_compressed);
    assert_eq!(frame.demo_cmd, EDemoCommands::DemFullPacket);
    assert_eq!(frame.tick, 5);
}

#[test]
fn read_frame_unknown_command() {
    let bytes = vec![30, 5, 0];
    assert_eq!(FrameParser::read_frame(&bytes, 0), Err(DemoParserError::UnknownDemoCmd(30)));
}

#[test]
fn read_frame_out_of_bytes() {
    let bytes = vec![13, 5];
    assert_eq!(FrameParser::read_frame(&bytes, 0), Err(DemoParserError::OutOfBytesError));
}

#[test]
fn read_frame_mut_ptr_moves_behind_header() {
    let bytes = small_demo();
    let mut ptr = 16;
    let frame = FrameParser::read_frame_mut_ptr(&bytes, &mut ptr).unwrap();
    assert_eq!(frame.demo_cmd, EDemoCommands::DemFullPacket);
    assert_eq!(ptr, 19);
}

#[test]
fn try_find_beginning_finds_a_run_of_frames() {
    let bytes = small_demo();
    assert_eq!(FrameParser::try_find_beginning_of_a_frame(&bytes, 17, 38), Ok(19));
    // The first frame of a demo is known to start right behind the header.
    assert_eq!(FrameParser::try_find_beginning_of_a_frame(&bytes, 0, 38), Ok(16));
}

#[test]
fn try_find_beginning_gives_up_past_the_end() {
    let bytes = small_demo();
    assert_eq!(FrameParser::try_find_beginning_of_a_frame(&bytes, 30, 38), Err(DemoParserError::ClassNotFound));
}

#[test]
fn start_reports_full_packet_ranges() {
    let bytes = small_demo();
    let (s, r) = channel();
    let offsets = FrameParser::start(&bytes, 16, 38, &mut OffsetSender::new(s)).unwrap();
    let expected = vec![
        StartEndOffset { start: 16, end: 16, msg_type: StartEndType::OK },
        StartEndOffset { start: 16, end: 26, msg_type: StartEndType::OK },
        StartEndOffset { start: 26, end: 32, msg_type: StartEndType::OK },
    ];
    assert_eq!(offsets, expected);
    let sent: Vec<StartEndOffset> = r.try_iter().collect();
    assert_eq!(sent, expected);
}

#[test]
fn start_from_a_later_frame_skips_the_first_range() {
    let bytes = small_demo();
    let (s, _r) = channel();
    let offsets = FrameParser::start(&bytes, 19, 38, &mut OffsetSender::new(s)).unwrap();
    assert_eq!(offsets, vec![StartEndOffset { start: 26, end: 32, msg_type: StartEndType::OK }]);
}

#[test]
fn start_with_empty_range() {
    let bytes = small_demo();
    let (s, _r) = channel();
    assert_eq!(FrameParser::start(&bytes, 20, 20, &mut OffsetSender::new(s)).unwrap(), vec![]);
}

#[test]
fn split_into_chunks() {
    let v = FrameParser::split_file_into_n_chunks(100, 12);
    assert_eq!(v.len(), 12);
    assert_eq!(v[0], (0, 8));
    assert_eq!(v[1], (8, 16));
    assert_eq!(v[11], (88, 96));
    for i in 0..11 {
        assert_eq!(v[i].1, v[i + 1].0);
    }
}

#[test]
fn new_frame_parser_is_empty() {
    let fp = FrameParser::new();
    assert_eq!(fp.ptr, 0);
    assert!(fp.fullpacket_offsets.is_empty());
}

#[test]
fn coverage_extends_short_last_range() {
    let (s, r) = channel();
    let offsets = vec![
        StartEndOffset { start: 16, end: 20, msg_type: StartEndType::OK },
        StartEndOffset { start: 20, end: 30, msg_type: StartEndType::OK },
    ];
    assert!(check_all_bytes_are_covered(offsets, 40, &mut OffsetSender::new(s)));
    let sent: Vec<StartEndOffset> = r.try_iter().collect();
    assert_eq!(sent, vec![StartEndOffset { start: 30, end: 40, msg_type: StartEndType::OK }]);
}

#[test]
fn coverage_unsorted_and_duplicated() {
    let (s, _r) = channel();
    let offsets = vec![
        StartEndOffset { start: 20, end: 30, msg_type: StartEndType::OK },
        StartEndOffset { start: 16, end: 20, msg_type: StartEndType::OK },
        StartEndOffset { start: 20, end: 30, msg_type: StartEndType::OK },
    ];
    assert!(check_all_bytes_are_covered(offsets, 30, &mut OffsetSender::new(s)));
}

#[test]
fn coverage_empty_is_not_ok() {
    let (s, _r) = channel();
    assert!(!check_all_bytes_are_covered(vec![], 30, &mut OffsetSender::new(s)));
}

#[test]
fn finish_ranges_joins_the_walks_and_closes() {
    let (s, r) = channel();
    let found = vec![
        vec![StartEndOffset { start: 30, end: 40, msg_type: StartEndType::OK }],
        vec![
            StartEndOffset { start: 16, end: 20, msg_type: StartEndType::OK },
            StartEndOffset { start: 20, end: 30, msg_type: StartEndType::OK },
        ],
    ];
    assert!(finish_ranges(found, 50, &mut OffsetSender::new(s)));
    let sent: Vec<StartEndOffset> = r.try_iter().collect();
    assert_eq!(
        sent,
        vec![
            StartEndOffset { start: 40, end: 50, msg_type: StartEndType::OK },
            StartEndOffset { start: 0, end: 0, msg_type: StartEndType::EndOfMessages },
        ]
    );
}

#[test]
fn finish_ranges_reports_a_gap() {
    let (s, r) = channel();
    let found = vec![
        vec![StartEndOffset { start: 16, end: 20, msg_type: StartEndType::OK }],
        vec![StartEndOffset { start: 25, end: 40, msg_type: StartEndType::OK }],
    ];
    assert!(!finish_ranges(found, 40, &mut OffsetSender::new(s)));
    let sent: Vec<StartEndOffset> = r.try_iter().collect();
    assert_eq!(sent, vec![StartEndOffset { start: 0, end: 0, msg_type: StartEndType::MultithreadingWasNotOk }]);
}
