use vstd::prelude::*;

use crate::demo_cmd::{demo_cmd_of, demo_cmd_type_from_int, EDemoCommands};
use crate::error::DemoParserError;
use crate::read_bytes::{lemma_varint_from_bounds, read_varint, spec_varint};
use std::sync::mpsc::Sender;

verus! {

#[verifier::external_type_specification]
#[verifier::external_body]
#[verifier::reject_recursive_types(T)]
pub struct ExSender<T>(Sender<T>);

/// Hands `offset` to the receiving end through `std::sync::mpsc::Sender::send`.
/// The result says whether a receiver still took it; that depends on the other
/// end of the channel, so nothing more is stated of it.
#[verifier::external_body]
fn send_offset(sender: &Sender<StartEndOffset>, offset: StartEndOffset) -> (sent: bool) {
    sender.send(offset).is_ok()
}

/// The sending end of the channel that byte ranges go through, with the
/// ranges handed to it so far, in order (whether or not a receiver took
/// them).
pub struct OffsetSender {
    pub sender: Sender<StartEndOffset>,
    pub sent: Ghost<Seq<StartEndOffset>>,
}

impl OffsetSender {
    /// A sender that has handed over nothing yet.
    pub fn new(sender: Sender<StartEndOffset>) -> (r: Self)
        ensures
            r.sent@ == Seq::<StartEndOffset>::empty(),
    {
        OffsetSender { sender, sent: Ghost(Seq::empty()) }
    }

    /// Hands `offset` to the channel; whether a receiver still took it is
    /// returned.
    pub fn send(&mut self, offset: StartEndOffset) -> (sent: bool)
        ensures
            final(self).sent@ == old(self).sent@.push(offset),
    {
        let r = send_offset(&self.sender, offset);
        self.sent = Ghost(self.sent@.push(offset));
        r
    }
}

/// Splits a demo into the byte ranges that can be parsed independently.
pub struct FrameParser {
    pub ptr: usize,
    pub fullpacket_offsets: Vec<usize>,
}

/// The header of one frame: command, tick and payload size, and where the
/// header starts and ends.
#[derive(Debug, Clone, Copy, PartialEq, Eq)]
pub struct Frame {
    pub size: usize,
    pub tick: i32,
    pub frame_starts_at: usize,
    pub frame_ends_at: usize,
    pub is_compressed: bool,
    pub demo_cmd: EDemoCommands,
}

/// A byte range of the demo that starts at a full packet.
#[derive(Debug, Clone, Copy, PartialEq, Eq, Structural)]
pub struct StartEndOffset {
    pub start: usize,
    pub end: usize,
    pub msg_type: StartEndType,
}

#[derive(Debug, Clone, Copy, PartialEq, Eq, Structural)]
pub enum StartEndType {
    OK,
    EndOfMessages,
    MultithreadingWasNotOk,
}

/// The frame header at `ptr`: three varints (command, tick, size); bit 64 of
/// the command flags compression, the rest names the command.
pub open spec fn spec_read_frame(bytes: Seq<u8>, ptr: int) -> Result<Frame, DemoParserError> {
    match spec_varint(bytes, ptr) {
        None => Err(DemoParserError::OutOfBytesError),
        Some((cmd, p1)) => match spec_varint(bytes, p1) {
            None => Err(DemoParserError::OutOfBytesError),
            Some((tick, p2)) => match spec_varint(bytes, p2) {
                None => Err(DemoParserError::OutOfBytesError),
                Some((size, p3)) => {
                    let msg_type = cmd & !64u32;
                    match demo_cmd_of(msg_type as i32) {
                        None => Err(DemoParserError::UnknownDemoCmd(msg_type as i32)),
                        Some(c) => Ok(Frame {
                            frame_ends_at: p3 as usize,
                            size: size as usize,
                            tick: tick as i32,
                            frame_starts_at: ptr as usize,
                            is_compressed: cmd & 64u32 == 64u32,
                            demo_cmd: c,
                        }),
                    }
                },
            },
        },
    }
}

/// Where the frame after frame `f` starts.
pub open spec fn next_frame_pos(f: Frame) -> int {
    f.frame_ends_at + f.size
}

/// A frame header can be read at `p`, and so can the three frames behind it,
/// with ticks that go up by one from frame to frame.
pub open spec fn is_frame_start(bytes: Seq<u8>, p: int) -> bool {
    match spec_read_frame(bytes, p) {
        Err(_) => false,
        Ok(f) => match spec_read_frame(bytes, next_frame_pos(f)) {
            Err(_) => false,
            Ok(g) => match spec_read_frame(bytes, next_frame_pos(g)) {
                Err(_) => false,
                Ok(h) => match spec_read_frame(bytes, next_frame_pos(h)) {
                    Err(_) => false,
                    Ok(k) => f.tick + 1 == g.tick && g.tick + 1 == h.tick && h.tick + 1 == k.tick,
                },
            },
        },
    }
}

/// The last position a search for a frame that starts after `start` looks at.
pub open spec fn search_bound(len: int, start: int, end: int) -> int {
    let a = if len < end + 1 { len } else { end + 1 };
    if a < start + 100000 { a } else { start + 100000 }
}

/// A successful frame read ends behind its start, inside the input.
pub proof fn lemma_read_frame_bounds(bytes: Seq<u8>, ptr: int)
    requires
        bytes.len() <= usize::MAX,
    ensures
        spec_read_frame(bytes, ptr) matches Ok(f) ==> {
            &&& 0 <= ptr < bytes.len()
            &&& f.frame_starts_at as int == ptr
            &&& ptr + 3 <= f.frame_ends_at as int <= bytes.len()
        },
{
    lemma_varint_from_bounds(bytes, ptr, 0, 0);
    if let Some((cmd, p1)) = spec_varint(bytes, ptr) {
        lemma_varint_from_bounds(bytes, p1, 0, 0);
        if let Some((tick, p2)) = spec_varint(bytes, p1) {
            lemma_varint_from_bounds(bytes, p2, 0, 0);
        }
    }
}

/// The range from one full packet to the next.
pub open spec fn full_packet_range(start: usize, end: usize) -> StartEndOffset {
    StartEndOffset { start, end, msg_type: StartEndType::OK }
}

/// How many input positions lie at or behind `ptr`.
pub open spec fn remaining_len(len: int, ptr: int) -> nat {
    if 0 <= ptr < len { (len - ptr) as nat } else { 0 }
}

/// The last element of `v`, if any.
pub open spec fn last_of(v: Seq<usize>) -> Option<usize> {
    if v.len() == 0 { None } else { Some(v.last()) }
}

/// The ranges found by walking the frames from `ptr` on, where `last_full` is
/// the start of the last full packet met so far: each full packet closes the
/// range that began at the previous one (the first full packet closes the range
/// from offset 16 when the walk began at 16). The walk stops at the first frame
/// header that cannot be read, or at a full packet that reaches past `end`.
pub open spec fn spec_scan(bytes: Seq<u8>, ptr: int, start: int, end: int, last_full: Option<usize>) -> Seq<StartEndOffset>
    decreases remaining_len(bytes.len() as int, ptr),
    when bytes.len() <= usize::MAX
{
    match spec_read_frame(bytes, ptr) {
        Err(_) => Seq::empty(),
        Ok(f) => {
            proof {
                lemma_read_frame_bounds(bytes, ptr);
            }
            let np = next_frame_pos(f);
            if f.demo_cmd != EDemoCommands::DemFullPacket {
                spec_scan(bytes, np, start, end, last_full)
            } else {
                let out = match last_full {
                    Some(l) => seq![full_packet_range(l, f.frame_starts_at)],
                    None => if start == 16 {
                        seq![full_packet_range(16, f.frame_starts_at)]
                    } else {
                        Seq::empty()
                    },
                };
                if np > end {
                    out
                } else {
                    out + spec_scan(bytes, np, start, end, Some(f.frame_starts_at))
                }
            }
        },
    }
}

/// Chunk `i` of `n` equal chunks of a file of `demo_len` bytes (the
/// remainder of the division is left out at the end).
pub open spec fn file_chunk(demo_len: usize, n: usize, i: int) -> (usize, usize) {
    ((i * (demo_len as int / n as int)) as usize, ((i + 1) * (demo_len as int / n as int)) as usize)
}

/// The chunks tile the start of the file: the first starts at 0, each starts
/// where the one before ends, and the last ends less than `n` bytes before
/// the end of the file.
pub proof fn lemma_chunks_tile(demo_len: usize, n: usize, i: int)
    requires
        n > 0,
        0 <= i < n,
    ensures
        file_chunk(demo_len, n, 0).0 == 0,
        i + 1 < n ==> file_chunk(demo_len, n, i).1 == file_chunk(demo_len, n, i + 1).0,
        file_chunk(demo_len, n, i).0 <= file_chunk(demo_len, n, i).1,
        file_chunk(demo_len, n, n - 1).1 <= demo_len,
        demo_len - file_chunk(demo_len, n, n - 1).1 < n,
{
    let c = demo_len as int / n as int;
    assert(0 <= c);
    assert(n * c <= demo_len && demo_len - n * c < n) by (nonlinear_arith)
        requires
            c == demo_len as int / n as int,
            n > 0,
    ;
    assert(i * c <= (i + 1) * c && (i + 1) * c <= n * c) by (nonlinear_arith)
        requires
            0 <= i < n,
            0 <= c,
    ;
    assert((n - 1 + 1) * c == n * c);
}

impl FrameParser {
    pub fn new() -> (res: Self)
        ensures
            res.ptr == 0,
            res.fullpacket_offsets@.len() == 0,
    {
        FrameParser { ptr: 0, fullpacket_offsets: vec![] }
    }

    /// Reads the frame header at `ptr`.
    #[inline(always)]
    pub fn read_frame(demo_bytes: &[u8], ptr: usize) -> (res: Result<Frame, DemoParserError>)
        ensures
            res == spec_read_frame(demo_bytes@, ptr as int),
    {
        let mut p = ptr;
        FrameParser::read_frame_mut_ptr(demo_bytes, &mut p)
    }

    /// Reads the frame header at `*ptr` and moves `*ptr` behind it.
    #[inline(always)]
    pub fn read_frame_mut_ptr(demo_bytes: &[u8], ptr: &mut usize) -> (res: Result<Frame, DemoParserError>)
        ensures
            res == spec_read_frame(demo_bytes@, *old(ptr) as int),
            res matches Ok(f) ==> *final(ptr) == f.frame_ends_at,
    {
        let _len = demo_bytes.len();
        proof {
            lemma_read_frame_bounds(demo_bytes@, *ptr as int);
            lemma_varint_from_bounds(demo_bytes@, *ptr as int, 0, 0);
        }
        let frame_starts_at = *ptr;
        let cmd = read_varint(demo_bytes, ptr)?;
        proof {
            lemma_varint_from_bounds(demo_bytes@, *ptr as int, 0, 0);
        }
        let tick = read_varint(demo_bytes, ptr)?;
        proof {
            lemma_varint_from_bounds(demo_bytes@, *ptr as int, 0, 0);
        }
        let size = read_varint(demo_bytes, ptr)?;

        let msg_type = cmd & !64;
        let is_compressed = (cmd & 64) == 64;
        let demo_cmd = demo_cmd_type_from_int(#[verifier::truncate] (msg_type as i32))?;

        Ok(Frame {
            frame_ends_at: *ptr,
            size: size as usize,
            tick: #[verifier::truncate] (tick as i32),
            frame_starts_at,
            is_compressed,
            demo_cmd,
        })
    }

    /// The frame that starts at `pos`, where `pos` may lie beyond what a
    /// `usize` holds (and then no frame starts there).
    fn read_frame_at(demo_bytes: &[u8], base: usize, offset: usize) -> (res: Result<Frame, DemoParserError>)
        ensures
            res is Ok <==> spec_read_frame(demo_bytes@, base + offset) is Ok,
            res matches Ok(f) ==> spec_read_frame(demo_bytes@, base + offset) == Ok::<Frame, DemoParserError>(f),
    {
        match base.checked_add(offset) {
            Some(p) => FrameParser::read_frame(demo_bytes, p),
            None => {
                let _len = demo_bytes.len();
                proof {
                    lemma_read_frame_bounds(demo_bytes@, base + offset);
                }
                Err(DemoParserError::OutOfBytesError)
            },
        }
    }

    /// Whether a frame run of four frames with consecutive ticks starts at `ptr`.
    fn frame_run_starts_at(demo_bytes: &[u8], ptr: usize) -> (res: bool)
        ensures
            res == is_frame_start(demo_bytes@, ptr as int),
    {
        if let Ok(f) = FrameParser::read_frame(demo_bytes, ptr) {
            if let Ok(inner) = FrameParser::read_frame_at(demo_bytes, f.frame_ends_at, f.size) {
                if let Ok(inner2) = FrameParser::read_frame_at(demo_bytes, inner.frame_ends_at, inner.size) {
                    if let Ok(inner3) = FrameParser::read_frame_at(demo_bytes, inner2.frame_ends_at, inner2.size) {
                        return f.tick as i64 + 1 == inner.tick as i64 && inner.tick as i64 + 1 == inner2.tick as i64
                            && inner2.tick as i64 + 1 == inner3.tick as i64;
                    }
                }
            }
        }
        false
    }

    /// Finds where a frame starts after an arbitrary offset `start`: the first
    /// position behind `start` (looking at most up to `end + 1`, the end of the
    /// input and 100000 positions) at which four frames with consecutive ticks
    /// follow each other. Offsets 0 and 16 are known frame starts (16).
    pub fn try_find_beginning_of_a_frame(demo_bytes: &[u8], start: usize, end: usize) -> (res: Result<usize, DemoParserError>)
        ensures
            (start == 0 || start == 16) ==> res == Ok::<usize, DemoParserError>(16),
            !(start == 0 || start == 16) ==> match res {
                Ok(p) => start < p <= search_bound(demo_bytes@.len() as int, start as int, end as int)
                    && is_frame_start(demo_bytes@, p as int)
                    && forall|q: int| start < q < p ==> !is_frame_start(demo_bytes@, q),
                Err(e) => e == DemoParserError::ClassNotFound
                    && forall|q: int| start < q <= search_bound(demo_bytes@.len() as int, start as int, end as int)
                        ==> !is_frame_start(demo_bytes@, q),
            },
    {
        let mut ptr = start;
        if ptr == 0 || ptr == 16 {
            return Ok(16);
        }
        let mut tot: u32 = 0;
        loop
            invariant
                !(start == 0 || start == 16),
                ptr as int == start as int + tot as int,
                tot <= 100000,
                tot > 0 ==> ptr - 1 < demo_bytes@.len() && ptr - 1 <= end,
                forall|q: int| start < q <= ptr ==> !is_frame_start(demo_bytes@, q),
            decreases 100000 - tot,
        {
            tot += 1;
            if ptr >= demo_bytes.len() || tot > 100000 || ptr > end {
                return Err(DemoParserError::ClassNotFound);
            }
            ptr += 1;
            if FrameParser::frame_run_starts_at(demo_bytes, ptr) {
                return Ok(ptr);
            }
        }
    }

    /// Walks the frames from `start` and returns the full-packet ranges found
    /// (see `spec_scan`), sending each one through `sender` as it is found:
    /// what is sent is exactly what is returned, in order.
    pub fn start(demo_bytes: &[u8], start: usize, end: usize, sender: &mut OffsetSender) -> (res: Result<
        Vec<StartEndOffset>,
        DemoParserError,
    >)
        ensures
            start == end ==> (res matches Ok(v) && v@.len() == 0),
            start != end ==> (res matches Ok(v) && v@ == spec_scan(demo_bytes@, start as int, start as int, end as int, None)),
            res matches Ok(v) ==> final(sender).sent@ == old(sender).sent@ + v@,
    {
        if start == end {
            return Ok(vec![]);
        }
        let len = demo_bytes.len();
        let mut ptr = start;
        let mut fullpacket_offsets: Vec<usize> = vec![];
        let mut outs: Vec<StartEndOffset> = vec![];
        loop
            invariant
                start != end,
                len == demo_bytes@.len(),
                outs@ + spec_scan(demo_bytes@, ptr as int, start as int, end as int, last_of(fullpacket_offsets@))
                    == spec_scan(demo_bytes@, start as int, start as int, end as int, None),
                sender.sent@ == old(sender).sent@ + outs@,
            decreases remaining_len(demo_bytes@.len() as int, ptr as int),
        {
            let ghost before = ptr;
            let ghost outs_before = outs@;
            let ghost last_before = last_of(fullpacket_offsets@);
            proof {
                lemma_read_frame_bounds(demo_bytes@, ptr as int);
            }
            if let Ok(frame) = FrameParser::read_frame_mut_ptr(demo_bytes, &mut ptr) {
                let next = frame.frame_ends_at.checked_add(frame.size);
                if frame.demo_cmd == EDemoCommands::DemFullPacket {
                    if fullpacket_offsets.len() > 0 {
                        let o = StartEndOffset {
                            start: fullpacket_offsets[fullpacket_offsets.len() - 1],
                            end: frame.frame_starts_at,
                            msg_type: StartEndType::OK,
                        };
                        let _ = sender.send(o);
                        outs.push(o);
                        assert(sender.sent@ =~= old(sender).sent@ + outs@);
                    }
                    // Only the walk that begins at the first frame reports the range before the first full packet.
                    if fullpacket_offsets.len() == 0 && start == 16 {
                        let o = StartEndOffset { start: 16, end: frame.frame_starts_at, msg_type: StartEndType::OK };
                        let _ = sender.send(o);
                        outs.push(o);
                        assert(sender.sent@ =~= old(sender).sent@ + outs@);
                    }
                    fullpacket_offsets.push(frame.frame_starts_at);
                    assert(outs@ =~= outs_before + (match last_before {
                        Some(l) => seq![full_packet_range(l, frame.frame_starts_at)],
                        None => if start == 16 {
                            seq![full_packet_range(16, frame.frame_starts_at)]
                        } else {
                            Seq::empty()
                        },
                    }));
                    match next {
                        None => {
                            assert(spec_read_frame(demo_bytes@, before as int) == Ok::<Frame, DemoParserError>(frame));
                            assert(next_frame_pos(frame) > end);
                            assert(spec_scan(demo_bytes@, before as int, start as int, end as int, last_before)
                                =~= outs@.subrange(outs_before.len() as int, outs@.len() as int));
                            assert(outs@ =~= spec_scan(demo_bytes@, start as int, start as int, end as int, None));
                            return Ok(outs);
                        },
                        Some(np) => {
                            ptr = np;
                            // Past the designated end, the walk stops at a full packet.
                            if ptr > end {
                                return Ok(outs);
                            }
                        },
                    }
                } else {
                    match next {
                        None => {
                            proof {
                                lemma_read_frame_bounds(demo_bytes@, next_frame_pos(frame));
                                assert(spec_read_frame(demo_bytes@, next_frame_pos(frame)) is Err);
                                assert(spec_scan(demo_bytes@, next_frame_pos(frame), start as int, end as int, last_before)
                                    =~= Seq::<StartEndOffset>::empty());
                            }
                            assert(outs@ =~= spec_scan(demo_bytes@, start as int, start as int, end as int, None));
                            return Ok(outs);
                        },
                        Some(np) => {
                            ptr = np;
                        },
                    }
                }
            } else {
                assert(outs@ =~= spec_scan(demo_bytes@, start as int, start as int, end as int, None));
                return Ok(outs);
            }
        }
    }

    /// `n` ranges of equal length `demo_len / n` that tile the front of the demo.
    pub fn split_file_into_n_chunks(demo_len: usize, n: usize) -> (v: Vec<(usize, usize)>)
        requires
            n > 0,
        ensures
            v@.len() == n,
            forall|i: int| 0 <= i < n ==> #[trigger] v@[i] == file_chunk(demo_len, n, i),
    {
        let chunk_size = demo_len / n;
        let mut v: Vec<(usize, usize)> = vec![];
        let mut idx: usize = 0;
        while idx < n
            invariant
                idx <= n,
                chunk_size == demo_len as int / n as int,
                v@.len() == idx,
                forall|i: int| 0 <= i < idx ==> #[trigger] v@[i] == ((i * chunk_size) as usize, ((i + 1) * chunk_size) as usize),
            decreases n - idx,
        {
            proof {
                assert((idx + 1) * chunk_size <= n * chunk_size) by (nonlinear_arith)
                    requires idx + 1 <= n;
                assert(n * chunk_size <= demo_len) by (nonlinear_arith)
                    requires chunk_size == demo_len as int / n as int, n > 0;
                assert(idx * chunk_size <= (idx + 1) * chunk_size) by (nonlinear_arith);
                assert((idx + 1) * chunk_size == idx * chunk_size + chunk_size) by (nonlinear_arith);
            }
            v.push((idx * chunk_size, idx * chunk_size + chunk_size));
            idx += 1;
        }
        v
    }
}


/// Where a stable sort by start puts `x` among the already sorted `s`: behind
/// every range that starts no later than `x`.
pub open spec fn insert_pos(x: StartEndOffset, s: Seq<StartEndOffset>) -> int
    decreases s.len(),
{
    if s.len() == 0 {
        0
    } else if s.last().start <= x.start {
        s.len() as int
    } else {
        insert_pos(x, s.drop_last())
    }
}

/// `s` sorted by start; ranges with equal start keep their order.
pub open spec fn sort_by_start(s: Seq<StartEndOffset>) -> Seq<StartEndOffset>
    decreases s.len(),
{
    if s.len() == 0 {
        s
    } else {
        let r = sort_by_start(s.drop_last());
        r.insert(insert_pos(s.last(), r), s.last())
    }
}

/// `s` with every run of equal neighbours cut down to its first element.
pub open spec fn dedup_offsets(s: Seq<StartEndOffset>) -> Seq<StartEndOffset>
    decreases s.len(),
{
    if s.len() <= 1 {
        s
    } else {
        let d = dedup_offsets(s.drop_last());
        if s.last() == s[s.len() - 2] {
            d
        } else {
            d.push(s.last())
        }
    }
}

/// Each range ends where the next one starts.
pub open spec fn has_no_gaps(s: Seq<StartEndOffset>) -> bool {
    forall|i: int| 0 <= i < s.len() - 1 ==> #[trigger] s[i].end == s[i + 1].start
}

/// The smallest start of a nonempty `s`.
pub open spec fn min_start(s: Seq<StartEndOffset>) -> int
    decreases s.len(),
{
    if s.len() <= 1 {
        s[0].start as int
    } else {
        let m = min_start(s.drop_last());
        if (s.last().start as int) < m { s.last().start as int } else { m }
    }
}

/// The largest end of a nonempty `s`.
pub open spec fn max_end(s: Seq<StartEndOffset>) -> int
    decreases s.len(),
{
    if s.len() <= 1 {
        s[0].end as int
    } else {
        let m = max_end(s.drop_last());
        if (s.last().end as int) > m { s.last().end as int } else { m }
    }
}

/// Whether the ranges cover the demo from byte 16 to its end without a gap.
/// When they stop short of the end, the missing tail is reported as a range of
/// its own, and the answer then also depends on whether that report (`sent`)
/// was taken.
pub open spec fn coverage_verdict(offsets: Seq<StartEndOffset>, demo_len: int, sent: bool) -> bool {
    let d = dedup_offsets(sort_by_start(offsets));
    &&& d.len() > 0
    &&& has_no_gaps(d)
    &&& min_start(d) == 16
    &&& (max_end(d) == demo_len || (max_end(d) < demo_len && sent))
}

/// The range that the coverage check sends: where the ranges have no gap
/// but stop short of (or run past) the end of the demo, the range from
/// their largest end to the end of the demo.
pub open spec fn coverage_tail(offsets: Seq<StartEndOffset>, demo_len: usize) -> Seq<StartEndOffset> {
    let d = dedup_offsets(sort_by_start(offsets));
    if d.len() > 0 && has_no_gaps(d) && max_end(d) != demo_len {
        seq![StartEndOffset { start: max_end(d) as usize, end: demo_len, msg_type: StartEndType::OK }]
    } else {
        Seq::empty()
    }
}

/// The stable sort of `v` by start.
fn sort_offsets_by_start(v: &Vec<StartEndOffset>) -> (r: Vec<StartEndOffset>)
    ensures
        r@ == sort_by_start(v@),
{
    let mut r: Vec<StartEndOffset> = Vec::new();
    let mut i: usize = 0;
    while i < v.len()
        invariant
            i <= v@.len(),
            r@ == sort_by_start(v@.take(i as int)),
        decreases v@.len() - i,
    {
        let x = v[i];
        let mut j = r.len();
        assert(r@.take(r@.len() as int) =~= r@);
        while j > 0 && r[j - 1].start > x.start
            invariant
                j <= r@.len(),
                insert_pos(x, r@) == insert_pos(x, r@.take(j as int)),
            decreases j,
        {
            assert(r@.take(j as int).drop_last() =~= r@.take(j - 1));
            j -= 1;
        }
        proof {
            if j > 0 {
                assert(r@.take(j as int).last() == r@[j - 1]);
            }
            assert(v@.take(i + 1).drop_last() =~= v@.take(i as int));
        }
        r.insert(j, x);
        i += 1;
    }
    assert(v@.take(v@.len() as int) =~= v@);
    r
}

/// `s` with runs of equal neighbours cut down to one element.
fn dedup_offsets_vec(s: &Vec<StartEndOffset>) -> (d: Vec<StartEndOffset>)
    ensures
        d@ == dedup_offsets(s@),
{
    let mut d: Vec<StartEndOffset> = Vec::new();
    let mut i: usize = 0;
    while i < s.len()
        invariant
            i <= s@.len(),
            d@ == dedup_offsets(s@.take(i as int)),
        decreases s@.len() - i,
    {
        proof {
            assert(s@.take(i + 1).drop_last() =~= s@.take(i as int));
        }
        if i == 0 || s[i] != s[i - 1] {
            d.push(s[i]);
        }
        i += 1;
    }
    assert(s@.take(s@.len() as int) =~= s@);
    d
}

/// Checks that the ranges found by the walkers tile the demo: sorted by start
/// and with duplicates removed, each range must end where the next begins, the
/// first must start at byte 16, and the last must end at `demo_len`. A tail
/// that no range covers is sent through `sender` as a range of its own; the
/// check then passes only if that send succeeds.
pub fn check_all_bytes_are_covered(sorted_offsets: Vec<StartEndOffset>, demo_len: usize, sender: &mut OffsetSender) -> (is_ok: bool)
    ensures
        final(sender).sent@ == old(sender).sent@ + coverage_tail(sorted_offsets@, demo_len),
        is_ok == coverage_verdict(sorted_offsets@, demo_len as int, true)
            || is_ok == coverage_verdict(sorted_offsets@, demo_len as int, false),
        !coverage_verdict(sorted_offsets@, demo_len as int, true) ==> !is_ok,
{
    let sorted = sort_offsets_by_start(&sorted_offsets);
    let d = dedup_offsets_vec(&sorted);
    let ghost dd = d@;
    let n = d.len();
    // Check that no gaps in the ranges
    let mut i: usize = 0;
    while n > 0 && i < n - 1
        invariant
            n == dd.len(),
            d@ == dd,
            dd == dedup_offsets(sort_by_start(sorted_offsets@)),
            sender.sent@ == old(sender).sent@,
            forall|k: int| 0 <= k < i && k < dd.len() - 1 ==> #[trigger] dd[k].end == dd[k + 1].start,
        decreases n - i,
    {
        if d[i].end != d[i + 1].start {
            assert(!has_no_gaps(dd)) by {
                assert(dd[i as int].end != dd[i + 1].start);
            }
            return false;
        }
        i += 1;
    }
    if n == 0 {
        assert(old(sender).sent@ + coverage_tail(sorted_offsets@, demo_len) =~= old(sender).sent@);
        return false;
    }
    assert(has_no_gaps(dd));
    // Make sure we start at 16 and end at file length
    let mut smallest = d[0].start;
    let mut largest = d[0].end;
    let mut k: usize = 1;
    while k < n
        invariant
            1 <= k <= n,
            n == dd.len(),
            d@ == dd,
            sender.sent@ == old(sender).sent@,
            smallest as int == min_start(dd.take(k as int)),
            largest as int == max_end(dd.take(k as int)),
        decreases n - k,
    {
        proof {
            assert(dd.take(k + 1).drop_last() =~= dd.take(k as int));
        }
        if d[k].start < smallest {
            smallest = d[k].start;
        }
        if d[k].end > largest {
            largest = d[k].end;
        }
        k += 1;
    }
    assert(dd.take(n as int) =~= dd);
    let mut send_ok = true;
    let mut largest_after = largest;
    if largest != demo_len {
        let res = sender.send(StartEndOffset { start: largest, end: demo_len, msg_type: StartEndType::OK });
        assert(sender.sent@ =~= old(sender).sent@ + coverage_tail(sorted_offsets@, demo_len));
        send_ok = res;
        if demo_len > largest {
            largest_after = demo_len;
        }
    }
    assert(largest != demo_len || sender.sent@ =~= old(sender).sent@ + coverage_tail(sorted_offsets@, demo_len));
    smallest == 16 && largest_after == demo_len && send_ok
}

// ---------------------------------------------------------------------------
// Closing the walk over all chunks.

/// Where `x` goes among `s` (sorted by end) so that the order stays stable.
pub open spec fn insert_pos_by_end(x: StartEndOffset, s: Seq<StartEndOffset>) -> int
    decreases s.len(),
{
    if s.len() == 0 {
        0
    } else if s.last().end <= x.end {
        s.len() as int
    } else {
        insert_pos_by_end(x, s.drop_last())
    }
}

/// The stable sort of `s` by end.
pub open spec fn sort_by_end(s: Seq<StartEndOffset>) -> Seq<StartEndOffset>
    decreases s.len(),
{
    if s.len() == 0 {
        s
    } else {
        let r = sort_by_end(s.drop_last());
        r.insert(insert_pos_by_end(s.last(), r), s.last())
    }
}

fn sort_offsets_by_end(v: &Vec<StartEndOffset>) -> (r: Vec<StartEndOffset>)
    ensures
        r@ == sort_by_end(v@),
{
    let mut r: Vec<StartEndOffset> = Vec::new();
    let mut i: usize = 0;
    while i < v.len()
        invariant
            i <= v@.len(),
            r@ == sort_by_end(v@.take(i as int)),
        decreases v@.len() - i,
    {
        let x = v[i];
        let mut j = r.len();
        assert(r@.take(r@.len() as int) =~= r@);
        while j > 0 && r[j - 1].end > x.end
            invariant
                j <= r@.len(),
                insert_pos_by_end(x, r@) == insert_pos_by_end(x, r@.take(j as int)),
            decreases j,
        {
            assert(r@.take(j as int).drop_last() =~= r@.take(j - 1));
            j -= 1;
        }
        proof {
            if j > 0 {
                assert(r@.take(j as int).last() == r@[j - 1]);
            }
            assert(v@.take(i + 1).drop_last() =~= v@.take(i as int));
        }
        r.insert(j, x);
        i += 1;
    }
    assert(v@.take(v@.len() as int) =~= v@);
    r
}

/// The ranges of all the walks, one walk after the other.
pub open spec fn all_ranges(found: Seq<Vec<StartEndOffset>>) -> Seq<StartEndOffset>
    decreases found.len(),
{
    if found.len() == 0 {
        Seq::empty()
    } else {
        all_ranges(found.drop_last()) + found.last()@
    }
}

/// The message that closes the walk.
pub open spec fn closing_message(is_ok: bool) -> StartEndOffset {
    StartEndOffset {
        start: 0,
        end: 0,
        msg_type: if is_ok {
            StartEndType::EndOfMessages
        } else {
            StartEndType::MultithreadingWasNotOk
        },
    }
}

/// Closes the walk over all chunks: the ranges that the walks `found`,
/// sorted stably by end, are checked for covering the demo
/// (`check_all_bytes_are_covered`, which sends a missing tail), then the
/// closing message says whether they do.
pub fn finish_ranges(found: Vec<Vec<StartEndOffset>>, demo_len: usize, sender: &mut OffsetSender) -> (is_ok: bool)
    ensures
        ({
            let sorted = sort_by_end(all_ranges(found@));
            &&& is_ok == coverage_verdict(sorted, demo_len as int, true) || is_ok == coverage_verdict(
                sorted,
                demo_len as int,
                false,
            )
            &&& !coverage_verdict(sorted, demo_len as int, true) ==> !is_ok
            &&& final(sender).sent@ == old(sender).sent@ + coverage_tail(sorted, demo_len) + seq![
                closing_message(is_ok),
            ]
        }),
{
    let mut offsets: Vec<StartEndOffset> = Vec::new();
    let mut i: usize = 0;
    while i < found.len()
        invariant
            i <= found@.len(),
            offsets@ == all_ranges(found@.take(i as int)),
        decreases found@.len() - i,
    {
        let mut k: usize = 0;
        let ghost base = offsets@;
        while k < found[i].len()
            invariant
                i < found@.len(),
                k <= found@[i as int]@.len(),
                offsets@ == base + found@[i as int]@.take(k as int),
            decreases found@[i as int]@.len() - k,
        {
            offsets.push(found[i][k]);
            assert(base + found@[i as int]@.take(k + 1) =~= (base + found@[i as int]@.take(k as int)).push(
                found@[i as int]@[k as int],
            ));
            k += 1;
        }
        proof {
            assert(found@.take(i + 1).drop_last() =~= found@.take(i as int));
            assert(found@[i as int]@.take(k as int) =~= found@[i as int]@);
        }
        i += 1;
    }
    assert(found@.take(found@.len() as int) =~= found@);
    let sorted = sort_offsets_by_end(&offsets);
    let is_ok = check_all_bytes_are_covered(sorted, demo_len, sender);
    let msg_type = if is_ok {
        StartEndType::EndOfMessages
    } else {
        StartEndType::MultithreadingWasNotOk
    };
    let ghost after_check = sender.sent@;
    let _ = sender.send(StartEndOffset { start: 0, end: 0, msg_type });
    assert(sender.sent@ =~= after_check + seq![closing_message(is_ok)]);
    is_ok
}

} // verus!
