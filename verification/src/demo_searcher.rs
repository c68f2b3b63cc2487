//! The walk over the front of a demo that finds its metadata messages and
//! the offsets of its full packets.
use vstd::prelude::*;

use crate::demo_cmd::{demo_cmd_of, demo_cmd_type_from_int, EDemoCommands};
use crate::error::DemoParserError;
use crate::read_bytes::{lemma_varint_from_bounds, read_varint, spec_varint};

verus! {

/// Where the header of a demo ends and its first frame starts.
pub const FRONT_START: usize = 16;

/// A metadata frame (send tables, class info or file header): its command,
/// whether its payload is compressed, and where the payload lies.
#[derive(Debug, Clone, Copy, PartialEq, Eq)]
pub struct MetadataFrame {
    pub demo_cmd: EDemoCommands,
    pub is_compressed: bool,
    pub start: usize,
    pub size: usize,
}

/// The commands whose payload the walk reads.
pub open spec fn is_front_cmd(c: Option<EDemoCommands>) -> bool {
    c == Some(EDemoCommands::DemSendTables) || c == Some(EDemoCommands::DemClassInfo) || c == Some(
        EDemoCommands::DemFullPacket,
    ) || c == Some(EDemoCommands::DemStop) || c == Some(EDemoCommands::DemFileHeader)
}

/// The walk from the frame at `ptr` on, having found `offsets` and
/// `frames` so far: each frame header is three varints (command with the
/// compression bit 64, tick, payload size). A full packet adds its frame's
/// start to the offsets; send tables, class info and file header add a
/// metadata frame; the stop command ends the walk; any other frame is
/// skipped. A header or a read payload that runs past the end is an
/// `OutOfBytesError`.
pub open spec fn spec_front_walk(bytes: Seq<u8>, ptr: int, offsets: Seq<usize>, frames: Seq<MetadataFrame>) -> Result<
    (Seq<usize>, Seq<MetadataFrame>),
    DemoParserError,
>
    decreases bytes.len() - ptr,
{
    match spec_varint(bytes, ptr) {
        None => Err(DemoParserError::OutOfBytesError),
        Some((cmd, p1)) => match spec_varint(bytes, p1) {
            None => Err(DemoParserError::OutOfBytesError),
            Some((_tick, p2)) => match spec_varint(bytes, p2) {
                None => Err(DemoParserError::OutOfBytesError),
                Some((size, p3)) => {
                    proof {
                        lemma_varint_from_bounds(bytes, ptr, 0, 0);
                        lemma_varint_from_bounds(bytes, p1, 0, 0);
                        lemma_varint_from_bounds(bytes, p2, 0, 0);
                    }
                    let c = demo_cmd_of((cmd & !64u32) as i32);
                    let next = p3 + size;
                    if next > bytes.len() {
                        Err(DemoParserError::OutOfBytesError)
                    } else if !is_front_cmd(c) {
                        spec_front_walk(bytes, next, offsets, frames)
                    } else if c == Some(EDemoCommands::DemStop) {
                        Ok((offsets, frames))
                    } else if c == Some(EDemoCommands::DemFullPacket) {
                        spec_front_walk(bytes, next, offsets.push(ptr as usize), frames)
                    } else {
                        spec_front_walk(
                            bytes,
                            next,
                            offsets,
                            frames.push(
                                MetadataFrame {
                                    demo_cmd: c->0,
                                    is_compressed: (cmd & 64u32) == 64u32,
                                    start: p3 as usize,
                                    size: size as usize,
                                },
                            ),
                        )
                    }
                },
            },
        },
    }
}

/// The walk only adds to what it has found: where it succeeds, the offsets
/// and metadata frames it started with come first in its result.
pub proof fn lemma_front_walk_extends(bytes: Seq<u8>, ptr: int, offsets: Seq<usize>, frames: Seq<MetadataFrame>)
    ensures
        spec_front_walk(bytes, ptr, offsets, frames) matches Ok((o, f)) ==> {
            &&& offsets.len() <= o.len() && o.take(offsets.len() as int) == offsets
            &&& frames.len() <= f.len() && f.take(frames.len() as int) == frames
        },
    decreases bytes.len() - ptr,
{
    match spec_varint(bytes, ptr) {
        None => {},
        Some((cmd, p1)) => match spec_varint(bytes, p1) {
            None => {},
            Some((_tick, p2)) => match spec_varint(bytes, p2) {
                None => {},
                Some((size, p3)) => {
                    lemma_varint_from_bounds(bytes, ptr, 0, 0);
                    lemma_varint_from_bounds(bytes, p1, 0, 0);
                    lemma_varint_from_bounds(bytes, p2, 0, 0);
                    let c = demo_cmd_of((cmd & !64u32) as i32);
                    let next = p3 + size;
                    if next > bytes.len() {
                    } else if !is_front_cmd(c) {
                        lemma_front_walk_extends(bytes, next, offsets, frames);
                    } else if c == Some(EDemoCommands::DemStop) {
                        assert(offsets.take(offsets.len() as int) =~= offsets);
                        assert(frames.take(frames.len() as int) =~= frames);
                    } else if c == Some(EDemoCommands::DemFullPacket) {
                        let o2 = offsets.push(ptr as usize);
                        lemma_front_walk_extends(bytes, next, o2, frames);
                        if let Ok((o, f)) = spec_front_walk(bytes, next, o2, frames) {
                            assert(o.take(offsets.len() as int) =~= o2.take(offsets.len() as int));
                            assert(o2.take(offsets.len() as int) =~= offsets);
                        }
                    } else {
                        let fr = MetadataFrame {
                            demo_cmd: c->0,
                            is_compressed: (cmd & 64u32) == 64u32,
                            start: p3 as usize,
                            size: size as usize,
                        };
                        let f2 = frames.push(fr);
                        lemma_front_walk_extends(bytes, next, offsets, f2);
                        if let Ok((o, f)) = spec_front_walk(bytes, next, offsets, f2) {
                            assert(f.take(frames.len() as int) =~= f2.take(frames.len() as int));
                            assert(f2.take(frames.len() as int) =~= frames);
                        }
                    }
                },
            },
        },
    }
}

/// A file header (command 1), send tables (command 4) or class info
/// (command 5) frame met on the walk is never dropped: where the walk from
/// that frame succeeds, the next metadata frame of its result is that frame,
/// with its command, its compression bit (64) and where its payload lies.
pub proof fn law_front_walk_keeps_metadata(bytes: Seq<u8>, ptr: int, offsets: Seq<usize>, frames: Seq<MetadataFrame>)
    requires
        spec_varint(bytes, ptr) is Some,
        spec_varint(bytes, spec_varint(bytes, ptr)->Some_0.1) is Some,
        spec_varint(bytes, spec_varint(bytes, spec_varint(bytes, ptr)->Some_0.1)->Some_0.1) is Some,
    ensures
        ({
            let (cmd, p1) = spec_varint(bytes, ptr)->Some_0;
            let (_tick, p2) = spec_varint(bytes, p1)->Some_0;
            let (size, p3) = spec_varint(bytes, p2)->Some_0;
            let m = cmd & !64u32;
            (m == 1 || m == 4 || m == 5) && p3 + size <= bytes.len() ==> match spec_front_walk(
                bytes,
                ptr,
                offsets,
                frames,
            ) {
                Ok((o, f)) => f.len() > frames.len() && f[frames.len() as int] == MetadataFrame {
                    demo_cmd: if m == 1 {
                        EDemoCommands::DemFileHeader
                    } else if m == 4 {
                        EDemoCommands::DemSendTables
                    } else {
                        EDemoCommands::DemClassInfo
                    },
                    is_compressed: cmd & 64u32 == 64u32,
                    start: p3 as usize,
                    size: size as usize,
                },
                Err(_) => true,
            }
        }),
{
    let (cmd, p1) = spec_varint(bytes, ptr)->Some_0;
    let (_tick, p2) = spec_varint(bytes, p1)->Some_0;
    let (size, p3) = spec_varint(bytes, p2)->Some_0;
    lemma_varint_from_bounds(bytes, ptr, 0, 0);
    lemma_varint_from_bounds(bytes, p1, 0, 0);
    lemma_varint_from_bounds(bytes, p2, 0, 0);
    let m = cmd & !64u32;
    if (m == 1 || m == 4 || m == 5) && p3 + size <= bytes.len() {
        let fr = MetadataFrame {
            demo_cmd: demo_cmd_of(m as i32)->0,
            is_compressed: (cmd & 64u32) == 64u32,
            start: p3 as usize,
            size: size as usize,
        };
        let f2 = frames.push(fr);
        lemma_front_walk_extends(bytes, p3 + size, offsets, f2);
        if let Ok((o, f)) = spec_front_walk(bytes, p3 + size, offsets, f2) {
            assert(f.take(f2.len() as int)[frames.len() as int] == f[frames.len() as int]);
        }
    }
}

/// The other kinds of frame on the walk: a full packet (command 13) adds the
/// start of its frame to the offsets, where the walk from it succeeds; the
/// stop command (0) ends the walk with what was found so far; a frame of any
/// other command (after the compression bit 64 is cleared) adds nothing, and
/// the walk goes on behind its payload.
pub proof fn law_front_walk_other_frames(bytes: Seq<u8>, ptr: int, offsets: Seq<usize>, frames: Seq<MetadataFrame>)
    requires
        spec_varint(bytes, ptr) is Some,
        spec_varint(bytes, spec_varint(bytes, ptr)->Some_0.1) is Some,
        spec_varint(bytes, spec_varint(bytes, spec_varint(bytes, ptr)->Some_0.1)->Some_0.1) is Some,
    ensures
        ({
            let (cmd, p1) = spec_varint(bytes, ptr)->Some_0;
            let (_tick, p2) = spec_varint(bytes, p1)->Some_0;
            let (size, p3) = spec_varint(bytes, p2)->Some_0;
            let m = cmd & !64u32;
            let w = spec_front_walk(bytes, ptr, offsets, frames);
            &&& p3 + size > bytes.len() ==> w == Err::<(Seq<usize>, Seq<MetadataFrame>), DemoParserError>(
                DemoParserError::OutOfBytesError,
            )
            &&& p3 + size <= bytes.len() ==> {
                &&& m == 13 ==> (w matches Ok((o, f)) ==> o.len() > offsets.len() && o[offsets.len() as int]
                    == ptr as usize)
                &&& m == 0 ==> w == Ok::<(Seq<usize>, Seq<MetadataFrame>), DemoParserError>((offsets, frames))
                &&& !(m == 0 || m == 1 || m == 4 || m == 5 || m == 13) ==> w == spec_front_walk(
                    bytes,
                    p3 + size,
                    offsets,
                    frames,
                )
            }
        }),
{
    let (cmd, p1) = spec_varint(bytes, ptr)->Some_0;
    let (_tick, p2) = spec_varint(bytes, p1)->Some_0;
    let (size, p3) = spec_varint(bytes, p2)->Some_0;
    lemma_varint_from_bounds(bytes, ptr, 0, 0);
    lemma_varint_from_bounds(bytes, p1, 0, 0);
    lemma_varint_from_bounds(bytes, p2, 0, 0);
    let m = cmd & !64u32;
    assert(((m as i32) == 0i32 ==> m == 0u32) && ((m as i32) == 1i32 ==> m == 1u32) && ((m as i32) == 4i32 ==> m
        == 4u32) && ((m as i32) == 5i32 ==> m == 5u32) && ((m as i32) == 13i32 ==> m == 13u32)) by (bit_vector);
    if m == 13 && p3 + size <= bytes.len() {
        let o2 = offsets.push(ptr as usize);
        lemma_front_walk_extends(bytes, p3 + size, o2, frames);
        if let Ok((o, f)) = spec_front_walk(bytes, p3 + size, o2, frames) {
            assert(o.take(o2.len() as int)[offsets.len() as int] == o[offsets.len() as int]);
        }
    }
}

/// Walks the front of the demo from the first frame to the stop command:
/// the offsets of the full packets (starting with the first frame, where
/// parsing can begin as well) and the metadata frames to decode, in order.
pub fn front_demo_metadata(demo_bytes: &[u8]) -> (res: Result<(Vec<usize>, Vec<MetadataFrame>), DemoParserError>)
    ensures
        match (res, spec_front_walk(demo_bytes@, FRONT_START as int, seq![FRONT_START], Seq::empty())) {
            (Ok((o, f)), Ok((so, sf))) => o@ == so && f@ == sf,
            (Err(e), Err(se)) => e == se,
            _ => false,
        },
{
    let mut ptr: usize = FRONT_START;
    let mut fullpacket_offsets: Vec<usize> = vec![FRONT_START];
    let mut frames: Vec<MetadataFrame> = Vec::new();
    assert(fullpacket_offsets@ =~= seq![FRONT_START]);
    assert(frames@ =~= Seq::<MetadataFrame>::empty());
    loop
        invariant
            spec_front_walk(demo_bytes@, FRONT_START as int, seq![FRONT_START], Seq::empty()) == spec_front_walk(
                demo_bytes@,
                ptr as int,
                fullpacket_offsets@,
                frames@,
            ),
        decreases demo_bytes@.len() - ptr,
    {
        let before = ptr;
        proof {
            lemma_varint_from_bounds(demo_bytes@, ptr as int, 0, 0);
        }
        let cmd = read_varint(demo_bytes, &mut ptr)?;
        proof {
            lemma_varint_from_bounds(demo_bytes@, ptr as int, 0, 0);
        }
        let _tick = read_varint(demo_bytes, &mut ptr)?;
        proof {
            lemma_varint_from_bounds(demo_bytes@, ptr as int, 0, 0);
        }
        let size = read_varint(demo_bytes, &mut ptr)?;
        let msg_type = cmd & !64;
        let is_compressed = (cmd & 64) == 64;
        let c = match demo_cmd_type_from_int(#[verifier::truncate] (msg_type as i32)) {
            Ok(c) => Some(c),
            Err(_) => None,
        };
        if size as usize > demo_bytes.len() - ptr {
            return Err(DemoParserError::OutOfBytesError);
        }
        let start = ptr;
        ptr = ptr + size as usize;
        match c {
            Some(EDemoCommands::DemStop) => {
                return Ok((fullpacket_offsets, frames));
            },
            Some(EDemoCommands::DemFullPacket) => {
                fullpacket_offsets.push(before);
            },
            Some(EDemoCommands::DemSendTables) | Some(EDemoCommands::DemClassInfo) | Some(
                EDemoCommands::DemFileHeader,
            ) => {
                frames.push(MetadataFrame { demo_cmd: c.unwrap(), is_compressed, start, size: size as usize });
            },
            _ => {},
        }
    }
}

// ---------------------------------------------------------------------------
// The file header.

/// The magic of a Source 2 demo, `PBDEMS2` and a zero byte.
pub open spec fn source2_magic() -> Seq<u8> {
    seq![0x50u8, 0x42, 0x44, 0x45, 0x4D, 0x53, 0x32, 0x00]
}

/// The magic of a Source 1 demo, `HL2DEMO` and a zero byte.
pub open spec fn source1_magic() -> Seq<u8> {
    seq![0x48u8, 0x4C, 0x32, 0x44, 0x45, 0x4D, 0x4F, 0x00]
}

/// What the 16-byte file header gives: at least 16 bytes are needed; the
/// first eight must be the Source 2 magic, unless they are not UTF-8 text
/// at all (a Source 1 magic, or other text, is refused); then the length
/// the file should have: the little-endian number in bytes 8 to 11, plus 18
/// (wrapping at 2^32).
pub open spec fn spec_short_header(b: Seq<u8>) -> Result<u32, DemoParserError> {
    if b.len() < 16 {
        Err(DemoParserError::OutOfBytesError)
    } else if b.take(8) != source2_magic() && b.take(8) == source1_magic() {
        Err(DemoParserError::Source1DemoError)
    } else if b.take(8) != source2_magic() && vstd::utf8::valid_utf8(b.take(8)) {
        Err(DemoParserError::UnknownFile)
    } else {
        Ok(((b[8] + 0x100 * b[9] + 0x10000 * b[10] + 0x1000000 * b[11] + 18) % 0x1_0000_0000) as u32)
    }
}

/// `std::str::from_utf8(..).is_ok()`: whether `bytes` are valid UTF-8.
#[verifier::external_body]
fn is_utf8(bytes: &[u8]) -> (r: bool)
    ensures
        r == vstd::utf8::valid_utf8(bytes@),
{
    std::str::from_utf8(bytes).is_ok()
}

/// Checks the 16-byte file header and gives the length that the file
/// should have (see `spec_short_header`); whether too much of it is missing
/// is for the caller to judge.
pub fn read_short_header(bytes: &[u8]) -> (res: Result<u32, DemoParserError>)
    ensures
        res == spec_short_header(bytes@),
{
    if bytes.len() < 16 {
        return Err(DemoParserError::OutOfBytesError);
    }
    let magic = vstd::slice::slice_subrange(bytes, 0, 8);
    assert(magic@ == bytes@.take(8));
    let is_source2 = magic[0] == 0x50 && magic[1] == 0x42 && magic[2] == 0x44 && magic[3] == 0x45 && magic[4]
        == 0x4D && magic[5] == 0x53 && magic[6] == 0x32 && magic[7] == 0x00;
    let is_source1 = magic[0] == 0x48 && magic[1] == 0x4C && magic[2] == 0x32 && magic[3] == 0x44 && magic[4]
        == 0x45 && magic[5] == 0x4D && magic[6] == 0x4F && magic[7] == 0x00;
    assert(is_source2 == (magic@ == source2_magic())) by {
        if is_source2 {
            assert(magic@ =~= source2_magic());
        }
    }
    assert(is_source1 == (magic@ == source1_magic())) by {
        if is_source1 {
            assert(magic@ =~= source1_magic());
        }
    }
    if !is_source2 {
        if is_source1 {
            return Err(DemoParserError::Source1DemoError);
        }
        if is_utf8(magic) {
            return Err(DemoParserError::UnknownFile);
        }
    }
    let v: u32 = bytes[8] as u32 | (bytes[9] as u32) << 8 | (bytes[10] as u32) << 16 | (bytes[11] as u32) << 24;
    let (b8, b9, b10, b11) = (bytes[8], bytes[9], bytes[10], bytes[11]);
    assert(v == b8 + 0x100 * b9 + 0x10000 * b10 + 0x1000000 * b11) by (bit_vector)
        requires
            v == b8 as u32 | (b9 as u32) << 8 | (b10 as u32) << 16 | (b11 as u32) << 24,
    ;
    Ok(v.wrapping_add(18))
}

} // verus!
