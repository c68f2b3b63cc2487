use vstd::prelude::*;

use crate::error::DemoParserError;

verus! {

/// The seven payload bits of one varint byte.
pub open spec fn varint_payload(b: u8) -> u32 {
    (b as u32) & 127u32
}

/// Whether a varint byte says that another byte follows.
pub open spec fn varint_continues(b: u8) -> bool {
    (b as u32) & 128u32 != 0
}

/// Decoding of a varint from position `ptr` on, where `count` bytes have already
/// been taken and have given `acc`. Byte number `k` contributes its seven payload
/// bits at bit offset `7 * k` (bits beyond 32 are lost); the varint ends at the
/// first byte without continuation bit, or after five bytes at the latest.
/// `None` when the bytes run out first; otherwise the value and the position
/// just behind the last byte taken.
pub open spec fn varint_from(bytes: Seq<u8>, ptr: int, count: nat, acc: u32) -> Option<(u32, int)>
    decreases 5 - count,
{
    if count >= 5 {
        Some((acc, ptr))
    } else if ptr < 0 || ptr >= bytes.len() {
        None
    } else {
        let b = bytes[ptr];
        let acc2 = acc | (varint_payload(b) << ((7 * count) as u32));
        if !varint_continues(b) {
            Some((acc2, ptr + 1))
        } else {
            varint_from(bytes, ptr + 1, count + 1, acc2)
        }
    }
}

/// The varint that starts at `ptr`: its value and the position behind it.
pub open spec fn spec_varint(bytes: Seq<u8>, ptr: int) -> Option<(u32, int)> {
    varint_from(bytes, ptr, 0, 0)
}

/// A varint is between one and five bytes long and lies within the input.
pub proof fn lemma_varint_from_bounds(bytes: Seq<u8>, ptr: int, count: nat, acc: u32)
    requires
        count <= 5,
    ensures
        varint_from(bytes, ptr, count, acc) matches Some((v, next)) ==> {
            &&& count < 5 ==> ptr < next
            &&& count == 5 ==> next == ptr
            &&& next <= ptr + (5 - count)
            &&& (count < 5 ==> next <= bytes.len())
        },
    decreases 5 - count,
{
    if count < 5 && 0 <= ptr < bytes.len() {
        let b = bytes[ptr];
        let acc2 = acc | (varint_payload(b) << ((7 * count) as u32));
        if varint_continues(b) {
            lemma_varint_from_bounds(bytes, ptr + 1, count + 1, acc2);
        }
    }
}

/// The standard varint encoding of `n`: seven bits per byte, least
/// significant first, the high bit set on every byte but the last.
pub open spec fn varint_encoding(n: u32) -> Seq<u8>
    decreases n,
{
    if n < 128 {
        seq![n as u8]
    } else {
        proof {
            assert(n >= 128 ==> n >> 7u32 < n) by (bit_vector);
        }
        seq![((n & 127) | 128) as u8] + varint_encoding(n >> 7u32)
    }
}

pub open spec fn low_bits(n: u32, k: u32) -> u32 {
    n & (((1u32 << k) - 1) as u32)
}

proof fn lemma_varint_step(n: u32, c: u32)
    requires
        c <= 4,
    ensures
        (n >> (7 * c) as u32) < 128 ==> (low_bits(n, (7 * c) as u32) | (((((n >> (7 * c) as u32) as u8) as u32)
            & 127u32) << (7 * c) as u32)) == n,
        (n >> (7 * c) as u32) < 128 ==> ((((n >> (7 * c) as u32) as u8) as u32) & 128u32) == 0,
        c == 4 ==> (n >> 28u32) < 128,
        c < 4 && (n >> (7 * c) as u32) >= 128 ==> {
            let m = n >> (7 * c) as u32;
            let b = ((m & 127) | 128) as u8;
            &&& (low_bits(n, (7 * c) as u32) | (((b as u32) & 127u32) << (7 * c) as u32)) == low_bits(n, (7 * c + 7) as u32)
            &&& (b as u32) & 128u32 != 0
            &&& m >> 7u32 == n >> (7 * c + 7) as u32
        },
{
    let s = (7 * c) as u32;
    assert(s <= 28 ==> (n >> s) < 128 ==> (low_bits(n, s) | ((((n >> s) as u8) as u32) & 127u32) << s) == n)
        by (bit_vector);
    assert((n >> s) < 128 ==> ((((n >> s) as u8) as u32) & 128u32) == 0) by (bit_vector);
    assert((n >> 28u32) < 128) by (bit_vector);
    if c < 4 {
        let m = n >> s;
        let b = ((m & 127) | 128) as u8;
        let s7 = (7 * c + 7) as u32;
        assert(s <= 21 && s7 == s + 7 && m == n >> s ==> (low_bits(n, s) | (((b as u32) & 127u32) << s)) == low_bits(n, s7)
            && (b as u32) & 128u32 != 0 && m >> 7u32 == n >> s7) by (bit_vector)
            requires
                s <= 21,
                s7 == s + 7,
                m == n >> s,
                b == ((m & 127) | 128) as u8;
    }
}

proof fn lemma_varint_reads_encoding(bytes: Seq<u8>, ptr: int, n: u32, c: u32)
    requires
        c <= 4,
        0 <= ptr,
        ptr + varint_encoding(n >> (7 * c) as u32).len() <= bytes.len(),
        bytes.subrange(ptr, ptr + varint_encoding(n >> (7 * c) as u32).len()) == varint_encoding(
            n >> (7 * c) as u32,
        ),
    ensures
        varint_from(bytes, ptr, c as nat, low_bits(n, (7 * c) as u32)) == Some(
            (n, ptr + varint_encoding(n >> (7 * c) as u32).len()),
        ),
    decreases 4 - c,
{
    let m = n >> (7 * c) as u32;
    lemma_varint_step(n, c);
    let enc = varint_encoding(m);
    assert(bytes[ptr] == enc[0]);
    if m < 128 {
        assert(enc.len() == 1);
    } else {
        let rest = varint_encoding(m >> 7u32);
        assert(enc == seq![((m & 127) | 128) as u8] + rest);
        assert(m >> 7u32 == n >> (7 * (c + 1)) as u32);
        assert(bytes.subrange(ptr + 1, ptr + 1 + rest.len()) =~= rest) by {
            assert forall|i: int| 0 <= i < rest.len() implies bytes.subrange(ptr + 1, ptr + 1 + rest.len())[i]
                == rest[i] by {
                assert(bytes[ptr + 1 + i] == enc[1 + i]);
            }
        }
        lemma_varint_reads_encoding(bytes, ptr + 1, n, (c + 1) as u32);
    }
}

/// A number written in the standard varint encoding reads back as that
/// number, and the cursor lands right behind its encoding.
pub proof fn lemma_varint_roundtrip(n: u32, rest: Seq<u8>)
    ensures
        spec_varint(varint_encoding(n) + rest, 0) == Some((n, varint_encoding(n).len() as int)),
{
    let bytes = varint_encoding(n) + rest;
    assert(n >> 0u32 == n) by (bit_vector);
    assert(low_bits(n, 0) == 0) by (bit_vector);
    assert(bytes.subrange(0, varint_encoding(n).len() as int) =~= varint_encoding(n));
    lemma_varint_reads_encoding(bytes, 0, n, 0);
}

/// Where a cursor stands after a varint could not be read from `ptr` on.
pub open spec fn exhausted_ptr(len: int, ptr: int) -> int {
    if ptr < len { len } else { ptr }
}

/// Reads a varint of at most five bytes at `*ptr` and moves `*ptr` behind it.
pub fn read_varint(bytes: &[u8], ptr: &mut usize) -> (res: Result<u32, DemoParserError>)
    ensures
        match spec_varint(bytes@, *old(ptr) as int) {
            Some((v, next)) => res == Ok::<u32, DemoParserError>(v) && *final(ptr) as int == next,
            None => res == Err::<u32, DemoParserError>(DemoParserError::OutOfBytesError)
                && *final(ptr) as int == exhausted_ptr(bytes@.len() as int, *old(ptr) as int),
        },
{
    let mut result: u32 = 0;
    let mut count: u32 = 0;
    loop
        invariant
            count <= 5,
            *ptr as int == *old(ptr) as int + count as int,
            count > 0 ==> *ptr <= bytes@.len(),
            spec_varint(bytes@, *old(ptr) as int) == varint_from(bytes@, *ptr as int, count as nat, result),
        decreases 5 - count,
    {
        if count >= 5 {
            return Ok(result);
        }
        if *ptr >= bytes.len() {
            return Err(DemoParserError::OutOfBytesError);
        }
        let b: u32 = bytes[*ptr] as u32;
        *ptr += 1;
        result = result | ((b & 127) << (7 * count));
        count += 1;
        if b & 0x80 == 0 {
            return Ok(result);
        }
    }
}


/// Reads a varint of at most five bytes starting at `ptr` and returns it with a
/// position: the position behind the varint when it ended after five bytes, and
/// one past that position when it ended on a byte without continuation bit.
pub fn read_varint2(bytes: &[u8], ptr: usize) -> (res: Result<(u32, usize), DemoParserError>)
    requires
        bytes@.len() < usize::MAX,
    ensures
        match spec_varint(bytes@, ptr as int) {
            Some((v, next)) => res matches Ok((rv, rp)) && rv == v && rp as int == (
                if varint_continues(bytes@[next - 1]) { next } else { next + 1 }),
            None => res == Err::<(u32, usize), DemoParserError>(DemoParserError::OutOfBytesError),
        },
{
    let mut p = ptr;
    let mut result: u32 = 0;
    let mut count: u32 = 0;
    loop
        invariant
            count <= 5,
            p as int == ptr as int + count as int,
            count > 0 ==> p <= bytes@.len(),
            count > 0 ==> varint_continues(bytes@[p - 1]),
            bytes@.len() < usize::MAX,
            spec_varint(bytes@, ptr as int) == varint_from(bytes@, p as int, count as nat, result),
        decreases 5 - count,
    {
        if count >= 5 {
            return Ok((result, p));
        }
        if p >= bytes.len() {
            return Err(DemoParserError::OutOfBytesError);
        }
        let b: u32 = bytes[p] as u32;
        p += 1;
        result = result | ((b & 127) << (7 * count));
        count += 1;
        if b & 0x80 == 0 {
            return Ok((result, p + 1));
        }
    }
}


/// Field-by-field reader of a packet-entities message: the scalar fields are
/// stored, the entity data is only located (`data_start..data_end`).
#[derive(Debug)]
pub struct PacketEntitiesParser<'a> {
    pub bytes: &'a [u8],
    pub ptr: usize,
    pub max_entries: i32,
    pub updated_entries: i32,
    pub is_delta: bool,
    pub update_baseline: bool,
    pub baseline: i32,
    pub delta_from: i32,
    pub pending_full_frame: bool,
    pub active_spawngroup_handle: u32,
    pub max_spawngroup_creationsequence: u32,
    pub last_cmd_number: u32,
    pub server_tick: u32,
    pub data_start: usize,
    pub data_end: usize,
}

impl<'a> PacketEntitiesParser<'a> {
    /// The state after the field with tag `varint` has been handled: the new
    /// parser and whether the message ends here. `None` where reading the
    /// field's value fails (the parser gives up with a panic there).
    pub open spec fn spec_read(self, varint: u32) -> Option<(Self, bool)> {
        if varint == 114 || varint == 122 {
            Some((self, false))
        } else if !(varint == 8 || varint == 16 || varint == 24 || varint == 32 || varint == 40
            || varint == 48 || varint == 58 || varint == 64 || varint == 72 || varint == 80
            || varint == 88 || varint == 96) {
            Some((self, true))
        } else {
            match spec_varint(self.bytes@, self.ptr as int) {
                None => None,
                Some((v, p)) => {
                    let s = PacketEntitiesParser { ptr: p as usize, ..self };
                    if varint == 58 {
                        if p + v > usize::MAX {
                            None
                        } else {
                            Some((PacketEntitiesParser {
                                data_start: p as usize,
                                data_end: (p + v) as usize,
                                ptr: (p + v) as usize,
                                ..self
                            }, false))
                        }
                    } else {
                        Some((
                            if varint == 8 {
                                PacketEntitiesParser { max_entries: v as i32, ..s }
                            } else if varint == 16 {
                                PacketEntitiesParser { updated_entries: v as i32, ..s }
                            } else if varint == 24 {
                                PacketEntitiesParser { is_delta: v != 0, ..s }
                            } else if varint == 32 {
                                PacketEntitiesParser { update_baseline: v != 0, ..s }
                            } else if varint == 40 {
                                PacketEntitiesParser { baseline: v as i32, ..s }
                            } else if varint == 48 {
                                PacketEntitiesParser { delta_from: v as i32, ..s }
                            } else if varint == 64 {
                                PacketEntitiesParser { pending_full_frame: v != 0, ..s }
                            } else if varint == 72 {
                                PacketEntitiesParser { active_spawngroup_handle: v, ..s }
                            } else if varint == 80 {
                                PacketEntitiesParser { max_spawngroup_creationsequence: v, ..s }
                            } else if varint == 88 {
                                PacketEntitiesParser { last_cmd_number: v, ..s }
                            } else {
                                PacketEntitiesParser { server_tick: v, ..s }
                            },
                            false,
                        ))
                    }
                },
            }
        }
    }

    /// Reading at most `rounds` fields: the final parser and whether a field
    /// ended the message. `None` where a tag or a value cannot be read.
    pub open spec fn spec_parse_from(self, rounds: nat) -> Option<(Self, bool)>
        decreases rounds,
    {
        if rounds == 0 {
            Some((self, false))
        } else {
            match spec_varint(self.bytes@, self.ptr as int) {
                None => None,
                Some((tag, p)) => match (PacketEntitiesParser { ptr: p as usize, ..self }).spec_read(tag) {
                    None => None,
                    Some((s, true)) => Some((s, true)),
                    Some((s, false)) => s.spec_parse_from((rounds - 1) as nat),
                },
            }
        }
    }

    pub fn new(bytes: &[u8]) -> (res: PacketEntitiesParser)
        ensures
            res.bytes@ == bytes@,
            res.ptr == 0,
            res.max_entries == 0,
            res.updated_entries == 0,
            !res.is_delta,
            !res.update_baseline,
            res.baseline == 0,
            res.delta_from == 0,
            !res.pending_full_frame,
            res.active_spawngroup_handle == 0,
            res.max_spawngroup_creationsequence == 0,
            res.last_cmd_number == 0,
            res.server_tick == 0,
            res.data_start == 0,
            res.data_end == 0,
    {
        PacketEntitiesParser {
            bytes: &bytes,
            ptr: 0,
            active_spawngroup_handle: 0,
            max_entries: 0,
            update_baseline: false,
            updated_entries: 0,
            is_delta: false,
            baseline: 0,
            delta_from: 0,
            pending_full_frame: false,
            max_spawngroup_creationsequence: 0,
            last_cmd_number: 0,
            server_tick: 0,
            data_end: 0,
            data_start: 0,
        }
    }

    /// Reads fields until one ends the message, for at most 1000 fields.
    pub fn parse_message(&mut self) -> (res: Result<(), DemoParserError>)
        requires
            old(self).spec_parse_from(1000) is Some,
        ensures
            ({
                let (s, done) = old(self).spec_parse_from(1000)->0;
                &&& *final(self) == s
                &&& done ==> res is Ok
                &&& !done ==> res == Err::<(), DemoParserError>(DemoParserError::MalformedMessage)
            }),
    {
        let mut i: u32 = 0;
        while i < 1000
            invariant
                i <= 1000,
                old(self).spec_parse_from(1000) == self.spec_parse_from((1000 - i) as nat),
                self.spec_parse_from((1000 - i) as nat) is Some,
            decreases 1000 - i,
        {
            let varint = self.read_varint().unwrap();
            let is_done = self.read(varint);
            if is_done {
                return Ok(());
            }
            i += 1;
        }
        Err(DemoParserError::MalformedMessage)
    }

    #[inline]
    pub fn read_varint(&mut self) -> (res: Result<u32, DemoParserError>)
        ensures
            final(self).bytes == old(self).bytes,
            match spec_varint(old(self).bytes@, old(self).ptr as int) {
                Some((v, next)) => res == Ok::<u32, DemoParserError>(v)
                    && final(self).ptr as int == next
                    && *final(self) == (PacketEntitiesParser { ptr: next as usize, ..*old(self) }),
                None => res == Err::<u32, DemoParserError>(DemoParserError::OutOfBytesError)
                    && *final(self) == (PacketEntitiesParser {
                        ptr: exhausted_ptr(old(self).bytes@.len() as int, old(self).ptr as int) as usize,
                        ..*old(self)
                    }),
            },
    {
        proof {
            lemma_varint_from_bounds(self.bytes@, self.ptr as int, 0, 0);
        }
        read_varint(self.bytes, &mut self.ptr)
    }

    /// The next `n` bytes; refused unless at least one byte would remain behind them.
    #[inline]
    pub fn read_n_bytes(&mut self, n: u32) -> (res: Result<&[u8], DemoParserError>)
        requires
            old(self).ptr + n <= usize::MAX,
        ensures
            old(self).ptr + n >= old(self).bytes@.len() ==> res == Err::<&[u8], DemoParserError>(
                DemoParserError::OutOfBytesError) && *final(self) == *old(self),
            old(self).ptr + n < old(self).bytes@.len() ==> (res matches Ok(r)
                && r@ == old(self).bytes@.subrange(old(self).ptr as int, old(self).ptr + n)
                && *final(self) == (PacketEntitiesParser { ptr: (old(self).ptr + n) as usize, ..*old(self) })),
    {
        if self.ptr + n as usize >= self.bytes.len() {
            return Err(DemoParserError::OutOfBytesError);
        }
        let s = &self.bytes[self.ptr..self.ptr + n as usize];
        self.ptr += n as usize;
        Ok(s)
    }

    /// Handles the field with tag `varint`; true when the message ends here.
    pub fn read(&mut self, varint: u32) -> (is_done: bool)
        requires
            old(self).spec_read(varint) is Some,
        ensures
            old(self).spec_read(varint) == Some((*final(self), is_done)),
    {
        match varint {
            8 => {
                self.max_entries = #[verifier::truncate] (self.read_varint().unwrap() as i32);
            },
            16 => {
                self.updated_entries = #[verifier::truncate] (self.read_varint().unwrap() as i32);
            },
            24 => {
                self.is_delta = self.read_varint().unwrap() != 0;
            },
            32 => {
                self.update_baseline = self.read_varint().unwrap() != 0;
            },
            40 => {
                self.baseline = #[verifier::truncate] (self.read_varint().unwrap() as i32);
            },
            48 => {
                self.delta_from = #[verifier::truncate] (self.read_varint().unwrap() as i32);
            },
            58 => {
                let buf_len = self.read_varint().unwrap() as usize;
                self.data_start = self.ptr;
                self.data_end = self.ptr + buf_len;
                self.ptr += buf_len;
            },
            64 => {
                self.pending_full_frame = self.read_varint().unwrap() != 0;
            },
            72 => {
                self.active_spawngroup_handle = self.read_varint().unwrap() as u32;
            },
            80 => {
                self.max_spawngroup_creationsequence = self.read_varint().unwrap() as u32;
            },
            88 => {
                self.last_cmd_number = self.read_varint().unwrap() as u32;
            },
            96 => {
                self.server_tick = self.read_varint().unwrap() as u32;
            },
            106 => {
                return true;
            },
            114 => {},
            122 => {},
            _ => return true,
        }
        false
    }
}


/// Reader of a full-packet message: locates its string-table part and its
/// packet part.
#[derive(Debug)]
pub struct FullPacketParser<'a> {
    pub bytes: &'a [u8],
    pub ptr: usize,
    pub st_data_end: usize,
    pub st_data_start: usize,
    pub packet_data_end: usize,
    pub packet_data_start: usize,
}

impl<'a> FullPacketParser<'a> {
    /// The state after the field with tag `varint`; `None` where the field
    /// cannot be read and the reader must not be called (an unknown tag, or a
    /// length that cannot be read or does not fit in a `usize`).
    pub open spec fn spec_read(self, varint: u32) -> Option<(Self, bool)> {
        if varint != 10 && varint != 18 {
            None
        } else {
            match spec_varint(self.bytes@, self.ptr as int) {
                None => None,
                Some((v, p)) => if p + v > usize::MAX || (varint == 18 && p + 4 > usize::MAX) {
                    None
                } else if varint == 10 {
                    Some((FullPacketParser {
                        st_data_start: p as usize,
                        st_data_end: (p + v) as usize,
                        ptr: (p + v) as usize,
                        ..self
                    }, false))
                } else {
                    Some((FullPacketParser {
                        packet_data_start: (p + 4) as usize,
                        packet_data_end: (p + v) as usize,
                        ptr: (p + v) as usize,
                        ..self
                    }, true))
                },
            }
        }
    }

    /// Reading at most `rounds` fields, as for the packet-entities reader.
    pub open spec fn spec_parse_from(self, rounds: nat) -> Option<(Self, bool)>
        decreases rounds,
    {
        if rounds == 0 {
            Some((self, false))
        } else {
            match spec_varint(self.bytes@, self.ptr as int) {
                None => None,
                Some((tag, p)) => match (FullPacketParser { ptr: p as usize, ..self }).spec_read(tag) {
                    None => None,
                    Some((s, true)) => Some((s, true)),
                    Some((s, false)) => s.spec_parse_from((rounds - 1) as nat),
                },
            }
        }
    }

    pub fn new(bytes: &[u8]) -> (res: FullPacketParser)
        ensures
            res.bytes@ == bytes@,
            res.ptr == 0,
            res.st_data_end == 0,
            res.st_data_start == 0,
            res.packet_data_end == 0,
            res.packet_data_start == 0,
    {
        FullPacketParser {
            bytes: &bytes,
            ptr: 0,
            st_data_end: 0,
            st_data_start: 0,
            packet_data_end: 0,
            packet_data_start: 0,
        }
    }

    /// Reads fields until the packet part has been found, for at most 1000 fields.
    pub fn parse_message(&mut self) -> (res: Result<(), DemoParserError>)
        requires
            old(self).spec_parse_from(1000) is Some,
        ensures
            ({
                let (s, done) = old(self).spec_parse_from(1000)->0;
                &&& *final(self) == s
                &&& done ==> res is Ok
                &&& !done ==> res == Err::<(), DemoParserError>(DemoParserError::MalformedMessage)
            }),
    {
        let mut i: u32 = 0;
        while i < 1000
            invariant
                i <= 1000,
                old(self).spec_parse_from(1000) == self.spec_parse_from((1000 - i) as nat),
                self.spec_parse_from((1000 - i) as nat) is Some,
            decreases 1000 - i,
        {
            let varint = self.read_varint().unwrap();
            let is_done = self.read(varint);
            if is_done {
                return Ok(());
            }
            i += 1;
        }
        Err(DemoParserError::MalformedMessage)
    }

    #[inline]
    pub fn read_varint(&mut self) -> (res: Result<u32, DemoParserError>)
        ensures
            match spec_varint(old(self).bytes@, old(self).ptr as int) {
                Some((v, next)) => res == Ok::<u32, DemoParserError>(v)
                    && final(self).ptr as int == next
                    && *final(self) == (FullPacketParser { ptr: next as usize, ..*old(self) }),
                None => res == Err::<u32, DemoParserError>(DemoParserError::OutOfBytesError)
                    && *final(self) == (FullPacketParser {
                        ptr: exhausted_ptr(old(self).bytes@.len() as int, old(self).ptr as int) as usize,
                        ..*old(self)
                    }),
            },
    {
        proof {
            lemma_varint_from_bounds(self.bytes@, self.ptr as int, 0, 0);
        }
        read_varint(self.bytes, &mut self.ptr)
    }

    /// The next `n` bytes; refused unless at least one byte would remain behind them.
    #[inline]
    pub fn read_n_bytes(&mut self, n: u32) -> (res: Result<&[u8], DemoParserError>)
        requires
            old(self).ptr + n <= usize::MAX,
        ensures
            old(self).ptr + n >= old(self).bytes@.len() ==> res == Err::<&[u8], DemoParserError>(
                DemoParserError::OutOfBytesError) && *final(self) == *old(self),
            old(self).ptr + n < old(self).bytes@.len() ==> (res matches Ok(r)
                && r@ == old(self).bytes@.subrange(old(self).ptr as int, old(self).ptr + n)
                && *final(self) == (FullPacketParser { ptr: (old(self).ptr + n) as usize, ..*old(self) })),
    {
        if self.ptr + n as usize >= self.bytes.len() {
            return Err(DemoParserError::OutOfBytesError);
        }
        let s = &self.bytes[self.ptr..self.ptr + n as usize];
        self.ptr += n as usize;
        Ok(s)
    }

    /// Handles the field with tag `varint`; true once the packet part is located.
    pub fn read(&mut self, varint: u32) -> (is_done: bool)
        requires
            old(self).spec_read(varint) is Some,
        ensures
            old(self).spec_read(varint) == Some((*final(self), is_done)),
    {
        match varint {
            10 => {
                let buf_len = self.read_varint().unwrap() as usize;
                self.st_data_start = self.ptr;
                self.st_data_end = self.ptr + buf_len;
                self.ptr += buf_len;
            },
            18 => {
                let buf_len = self.read_varint().unwrap() as usize;
                self.packet_data_start = self.ptr + 4;
                self.packet_data_end = self.ptr + buf_len;
                self.ptr += buf_len;
                return true;
            },
            _ => {
                proof {
                    assert(false);
                }
            },
        }
        false
    }
}

/// Locates the payload of a packet message (field 3, length-delimited).
pub struct ProtoPacketParser<'a> {
    pub bytes: &'a [u8],
    pub start: usize,
    pub end: usize,
    pub ptr: usize,
}

impl<'a> ProtoPacketParser<'a> {
    pub fn new(bytes: &'a [u8]) -> (res: Self)
        ensures
            res.bytes@ == bytes@,
            res.start == 0,
            res.end == 0,
            res.ptr == 0,
    {
        ProtoPacketParser { bytes: bytes, start: 0, end: 0, ptr: 0 }
    }

    #[inline]
    pub fn read_varint(&mut self) -> (res: Result<u32, DemoParserError>)
        ensures
            match spec_varint(old(self).bytes@, old(self).ptr as int) {
                Some((v, next)) => res == Ok::<u32, DemoParserError>(v)
                    && final(self).ptr as int == next
                    && *final(self) == (ProtoPacketParser { ptr: next as usize, ..*old(self) }),
                None => res == Err::<u32, DemoParserError>(DemoParserError::OutOfBytesError)
                    && *final(self) == (ProtoPacketParser {
                        ptr: exhausted_ptr(old(self).bytes@.len() as int, old(self).ptr as int) as usize,
                        ..*old(self)
                    }),
            },
    {
        proof {
            lemma_varint_from_bounds(self.bytes@, self.ptr as int, 0, 0);
        }
        read_varint(self.bytes, &mut self.ptr)
    }

    /// The next `n` bytes; refused unless at least one byte would remain behind them.
    #[inline]
    pub fn read_n_bytes(&mut self, n: u32) -> (res: Result<&[u8], DemoParserError>)
        requires
            old(self).ptr + n <= usize::MAX,
        ensures
            old(self).ptr + n >= old(self).bytes@.len() ==> res == Err::<&[u8], DemoParserError>(
                DemoParserError::OutOfBytesError) && *final(self) == *old(self),
            old(self).ptr + n < old(self).bytes@.len() ==> (res matches Ok(r)
                && r@ == old(self).bytes@.subrange(old(self).ptr as int, old(self).ptr + n)
                && *final(self) == (ProtoPacketParser { ptr: (old(self).ptr + n) as usize, ..*old(self) })),
    {
        if self.ptr + n as usize >= self.bytes.len() {
            return Err(DemoParserError::OutOfBytesError);
        }
        let s = &self.bytes[self.ptr..self.ptr + n as usize];
        self.ptr += n as usize;
        Ok(s)
    }

    /// The state after the field with tag `varint`: for tag 26 the payload
    /// bounds are recorded (the cursor stays in front of the payload). `None`
    /// where the reader must not be called: the length cannot be read, or the
    /// end does not fit in a `usize`.
    pub open spec fn spec_read_packet(self, varint: u32) -> Option<Result<Self, DemoParserError>> {
        if varint != 26 {
            Some(Err(DemoParserError::MalformedMessage))
        } else {
            match spec_varint(self.bytes@, self.ptr as int) {
                None => None,
                Some((v, p)) => if p + v > usize::MAX {
                    None
                } else {
                    Some(Ok(ProtoPacketParser { start: p as usize, end: (p + v) as usize, ptr: p as usize, ..self }))
                },
            }
        }
    }

    pub fn read_packet(&mut self, varint: u32) -> (res: Result<(), DemoParserError>)
        requires
            old(self).spec_read_packet(varint) is Some,
        ensures
            match old(self).spec_read_packet(varint)->0 {
                Ok(s) => res is Ok && *final(self) == s,
                Err(e) => res == Err::<(), DemoParserError>(e) && *final(self) == *old(self),
            },
    {
        match varint {
            26 => {
                let buf_len = self.read_varint().unwrap() as usize;
                self.start = self.ptr;
                self.end = self.ptr + buf_len;
                return Ok(());
            },
            _ => return Err(DemoParserError::MalformedMessage),
        }
    }

    /// The outcome of reading the first tag and then the field it announces,
    /// with the reader's state afterwards: a tag that cannot be read leaves
    /// the cursor at the end of the bytes, a tag other than 26 leaves it just
    /// behind the tag. `None` where the reader must not be called.
    pub open spec fn spec_read_proto_packet(self) -> Option<(Result<(), DemoParserError>, Self)> {
        match spec_varint(self.bytes@, self.ptr as int) {
            None => Some(
                (
                    Err(DemoParserError::OutOfBytesError),
                    ProtoPacketParser {
                        ptr: exhausted_ptr(self.bytes@.len() as int, self.ptr as int) as usize,
                        ..self
                    },
                ),
            ),
            Some((tag, p)) => {
                let after_tag = ProtoPacketParser { ptr: p as usize, ..self };
                match after_tag.spec_read_packet(tag) {
                    None => None,
                    Some(Ok(s)) => Some((Ok(()), s)),
                    Some(Err(e)) => Some((Err(e), after_tag)),
                }
            },
        }
    }

    pub fn read_proto_packet(&mut self) -> (res: Result<(), DemoParserError>)
        requires
            old(self).spec_read_proto_packet() is Some,
        ensures
            (res, *final(self)) == old(self).spec_read_proto_packet()->0,
    {
        let msg_type = self.read_varint()? as usize;
        self.read_packet(msg_type as u32)?;
        Ok(())
    }
}

} // verus!
