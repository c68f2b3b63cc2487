use vstd::prelude::*;

use crate::error::DemoParserError;
use crate::strings::nat_decimal;
use bitter::{BitReader, LittleEndianReader};
use vstd::arithmetic::power2::{pow2, lemma_pow2_unfold, lemma2_to64, lemma_pow2_strictly_increases};

verus! {

#[verifier::external_type_specification]
#[verifier::external_body]
pub struct ExLittleEndianReader<'a>(LittleEndianReader<'a>);

/// The bits that a little-endian bit reader still holds, in the order in which
/// it hands them out.
pub uninterp spec fn reader_bits(r: LittleEndianReader) -> Seq<bool>;

/// Bit `k` (0 = least significant) of `b`.
pub open spec fn byte_bit(b: u8, k: int) -> bool {
    (b >> (k as u8)) & 1u8 == 1u8
}

/// The bits of `s` in little-endian order: byte by byte, each byte from its
/// least significant bit on.
pub open spec fn bytes_to_bits(s: Seq<u8>) -> Seq<bool> {
    Seq::new((s.len() * 8) as nat, |i: int| byte_bit(s[i / 8], i % 8))
}

/// The number whose binary digits are `bits`, least significant first.
pub open spec fn bits_value(bits: Seq<bool>) -> nat
    decreases bits.len(),
{
    if bits.len() == 0 {
        0
    } else {
        (if bits[0] { 1nat } else { 0nat }) + 2 * bits_value(bits.drop_first())
    }
}

/// A number of `s.len()` binary digits is below two to that power.
pub proof fn lemma_bits_value_bound(s: Seq<bool>)
    ensures
        bits_value(s) < pow2(s.len()),
    decreases s.len(),
{
    if s.len() > 0 {
        lemma_bits_value_bound(s.drop_first());
        lemma_pow2_unfold(s.len());
    } else {
        lemma2_to64();
    }
}

/// The bytes made of consecutive groups of eight bits.
pub open spec fn bits_to_bytes(bits: Seq<bool>) -> Seq<u8> {
    Seq::new(bits.len() / 8, |j: int| bits_value(bits.subrange(8 * j, 8 * j + 8)) as u8)
}

proof fn lemma_byte_split(b: u8, start: u8)
    by (bit_vector)
    requires
        start < 8,
    ensures
        (b >> start) == ((b >> start) & 1u8) + 2 * (b >> ((start + 1) as u8)),
        (b >> start) & 1u8 == 0u8 || (b >> start) & 1u8 == 1u8,
        b >> 8u8 == 0,
        b >> 0u8 == b,
{
}

/// The bits `start..8` of `b`, least significant first, make `b >> start`.
proof fn lemma_bits_of_byte(b: u8, start: nat)
    requires
        start <= 8,
    ensures
        bits_value(Seq::new((8 - start) as nat, |k: int| byte_bit(b, start + k))) == (b >> (start as u8)) as nat,
    decreases 8 - start,
{
    let q = Seq::new((8 - start) as nat, |k: int| byte_bit(b, start + k));
    lemma_byte_split(b, if start < 8 { start as u8 } else { 0 });
    if start < 8 {
        lemma_bits_of_byte(b, start + 1);
        assert(q.drop_first() =~= Seq::new((8 - (start + 1)) as nat, |k: int| byte_bit(b, (start + 1) + k)));
        assert(byte_bit(b, start as int) == ((b >> (start as u8)) & 1u8 == 1u8));
    }
}

/// Whole bytes read from the bits of a buffer are the buffer's bytes: the
/// reader hands out each byte from its least significant bit on.
pub proof fn lemma_whole_bytes(s: Seq<u8>, n: nat)
    requires
        n <= s.len(),
    ensures
        bits_to_bytes(bytes_to_bits(s).take(8 * n as int)) == s.take(n as int),
{
    let bits = bytes_to_bits(s).take(8 * n as int);
    assert forall|j: int| 0 <= j < n implies #[trigger] bits_to_bytes(bits)[j] == s[j] by {
        assert(bits.subrange(8 * j, 8 * j + 8) =~= Seq::new(8, |k: int| byte_bit(s[j], 0 + k))) by {
            assert forall|k: int| 0 <= k < 8 implies #[trigger] bits.subrange(8 * j, 8 * j + 8)[k] == byte_bit(s[j], 0 + k) by {
                assert((8 * j + k) / 8 == j) by (nonlinear_arith)
                    requires
                        0 <= k < 8,
                ;
                assert((8 * j + k) % 8 == k) by (nonlinear_arith)
                    requires
                        0 <= k < 8,
                ;
            }
        }
        lemma_bits_of_byte(s[j], 0);
        lemma_byte_split(s[j], 0);
    }
    assert(bits_to_bytes(bits) =~= s.take(n as int));
}

/// Eight bits read as a number from the bits of a buffer are its first byte.
pub proof fn lemma_first_byte(s: Seq<u8>)
    requires
        s.len() >= 1,
    ensures
        sp_nbits(bytes_to_bits(s), 8) == (Ok::<u32, DemoParserError>(s[0] as u32), bytes_to_bits(s.drop_first())),
{
    let bits = bytes_to_bits(s);
    lemma_whole_bytes(s, 1);
    assert(bits.take(8) =~= bits.take(8).subrange(0, 8));
    assert(bits_to_bytes(bits.take(8))[0] == s[0]);
    lemma_bits_value_bound(bits.take(8));
    lemma2_to64();
    assert(bits_value(bits.take(8)) == s[0]);
    assert(bits.skip(8) =~= bytes_to_bits(s.drop_first())) by {
        assert forall|i: int| 0 <= i < bits.skip(8).len() implies bits.skip(8)[i] == bytes_to_bits(s.drop_first())[i] by {
            assert((i + 8) / 8 == i / 8 + 1);
            assert((i + 8) % 8 == i % 8);
        }
    }
}

/// `LittleEndianReader::new`: a reader that hands out the bits of `data` from
/// the least significant bit of its first byte on.
#[verifier::external_body]
fn le_reader_new(data: &[u8]) -> (r: LittleEndianReader<'_>)
    ensures
        reader_bits(r) == bytes_to_bits(data@),
{
    LittleEndianReader::new(data)
}

/// `BitReader::read_bits` of a little-endian reader (1 to 56 bits): the next
/// `n` bits as a number whose least significant bit is the first bit read; when
/// fewer bits are left, `None` and nothing is consumed.
#[verifier::external_body]
fn le_read_bits(r: &mut LittleEndianReader<'_>, n: u32) -> (res: Option<u64>)
    requires
        1 <= n <= 56,
    ensures
        reader_bits(*old(r)).len() >= n ==> res == Some(bits_value(reader_bits(*old(r)).take(n as int)) as u64)
            && reader_bits(*final(r)) == reader_bits(*old(r)).skip(n as int),
        reader_bits(*old(r)).len() < n ==> res is None && reader_bits(*final(r)) == reader_bits(*old(r)),
{
    r.read_bits(n)
}

/// `BitReader::read_bit`: the next bit; `None`, and nothing consumed, when no
/// bit is left.
#[verifier::external_body]
fn le_read_bit(r: &mut LittleEndianReader<'_>) -> (res: Option<bool>)
    ensures
        reader_bits(*old(r)).len() >= 1 ==> res == Some(reader_bits(*old(r))[0])
            && reader_bits(*final(r)) == reader_bits(*old(r)).skip(1),
        reader_bits(*old(r)).len() < 1 ==> res is None && reader_bits(*final(r)) == reader_bits(*old(r)),
{
    r.read_bit()
}

/// `BitReader::read_bytes` into the first `n` bytes of `buf`: when at least
/// `8 * n` bits are left, they fill those bytes (eight bits per byte, first bit
/// least significant) and true is returned; otherwise false, and neither the
/// reader nor `buf` changes.
#[verifier::external_body]
fn le_read_bytes(r: &mut LittleEndianReader<'_>, buf: &mut Vec<u8>, n: usize) -> (res: bool)
    requires
        n <= old(buf)@.len(),
    ensures
        reader_bits(*old(r)).len() >= 8 * n ==> res && reader_bits(*final(r)) == reader_bits(*old(r)).skip(8 * n)
            && final(buf)@ == bits_to_bytes(reader_bits(*old(r)).take(8 * n)) + old(buf)@.skip(n as int),
        reader_bits(*old(r)).len() < 8 * n ==> !res && reader_bits(*final(r)) == reader_bits(*old(r))
            && final(buf)@ == old(buf)@,
{
    r.read_bytes(&mut buf[..n])
}

/// `BitReader::bits_remaining`: how many bits are left.
#[verifier::external_body]
fn le_bits_remaining(r: &LittleEndianReader<'_>) -> (res: Option<usize>)
    requires
        reader_bits(*r).len() <= usize::MAX,
    ensures
        res == Some(reader_bits(*r).len() as usize),
{
    r.bits_remaining()
}

/// The text of a failed read of `requested` bytes with `bytes_left` bytes
/// left.
pub open spec fn failed_read_text(bytes_left: nat, requested: nat) -> Seq<char> {
    "Failed to read message/command. bytes left in stream: "@ + nat_decimal(bytes_left)
        + ", requested bytes: "@ + nat_decimal(requested)
}

/// `format!` of the message that goes with a failed read: the two numbers
/// written in decimal (as `Display` writes a `usize`) into the text.
#[verifier::external_body]
fn failed_read_message(bytes_left: usize, requested: usize) -> (m: String)
    ensures
        m@ == failed_read_text(bytes_left as nat, requested as nat),
{
    format!(
        "Failed to read message/command. bytes left in stream: {}, requested bytes: {}",
        bytes_left,
        requested,
    )
}

/// The outcome of a read on the bit stream `bits`: the value or the error,
/// and the bits left afterwards.
pub type BitRead<T> = (Result<T, DemoParserError>, Seq<bool>);

/// Reading `n` bits as a number (first bit least significant).
pub open spec fn sp_nbits(bits: Seq<bool>, n: nat) -> BitRead<u32> {
    if bits.len() >= n {
        (Ok(bits_value(bits.take(n as int)) as u32), bits.skip(n as int))
    } else {
        (Err(DemoParserError::OutOfBitsError), bits)
    }
}

/// Reading one bit as a flag.
pub open spec fn sp_bool(bits: Seq<bool>) -> BitRead<bool> {
    if bits.len() >= 1 {
        (Ok(bits[0]), bits.skip(1))
    } else {
        (Err(DemoParserError::OutOfBitsError), bits)
    }
}

/// The compact unsigned encoding: six bits, whose two high bits say whether
/// 0, 4, 8 or 28 more bits follow above the low four.
pub open spec fn sp_u_bit_var(bits: Seq<bool>) -> BitRead<u32> {
    let (r, b1) = sp_nbits(bits, 6);
    match r {
        Err(e) => (Err(e), b1),
        Ok(x) => {
            let sel = x & 48u32;
            if sel == 16 || sel == 32 || sel == 48 {
                let n: nat = if sel == 16 { 4 } else if sel == 32 { 8 } else { 28 };
                let (r2, b2) = sp_nbits(b1, n);
                match r2 {
                    Err(e) => (Err(e), b2),
                    Ok(y) => (Ok((x & 15u32) | (y << 4u32)), b2),
                }
            } else {
                (Ok(x), b1)
            }
        },
    }
}

/// A varint read byte by byte from the bit stream, after `count` bytes that
/// gave `acc` (at most five bytes, as for byte streams).
pub open spec fn sp_varint_from(bits: Seq<bool>, count: nat, acc: u32) -> BitRead<u32>
    decreases 5 - count,
{
    if count >= 5 {
        (Ok(acc), bits)
    } else {
        let (r, b1) = sp_nbits(bits, 8);
        match r {
            Err(e) => (Err(e), b1),
            Ok(x) => {
                let acc2 = acc | ((x & 127u32) << ((7 * count) as u32));
                if x & 128u32 == 0 {
                    (Ok(acc2), b1)
                } else {
                    sp_varint_from(b1, count + 1, acc2)
                }
            },
        }
    }
}

pub open spec fn sp_varint(bits: Seq<bool>) -> BitRead<u32> {
    sp_varint_from(bits, 0, 0)
}

/// Zigzag decoding of a signed number: even codes are the non-negative
/// numbers, odd codes the negative ones.
pub open spec fn zigzag32(v: u32) -> i32 {
    let x = v as i32;
    let y = x >> 1u32;
    if x & 1i32 != 0 { !y } else { y }
}

/// The zigzag code of a signed number: twice the number for a non-negative
/// one, minus one minus twice it for a negative one.
pub open spec fn zigzag_encode(n: i32) -> u32 {
    ((n << 1u32) ^ (n >> 31u32)) as u32
}

/// Zigzag decoding undoes zigzag encoding for every number whose code stays
/// below 2^31 (the decoding shifts the code as a signed number).
pub proof fn lemma_zigzag_roundtrip(n: i32)
    requires
        -0x4000_0000 <= n < 0x4000_0000,
    ensures
        zigzag32(zigzag_encode(n)) == n,
{
    assert(-0x4000_0000 <= n < 0x4000_0000 ==> zigzag32(zigzag_encode(n)) == n) by (bit_vector);
}

/// The zigzag code of a non-negative number is twice it; of a negative one,
/// minus one minus twice it.
pub proof fn lemma_zigzag_encode_value(n: i32)
    ensures
        n >= 0 ==> zigzag_encode(n) == 2 * n,
        n < 0 ==> zigzag_encode(n) == -2 * n - 1,
{
    assert(n >= 0 ==> zigzag_encode(n) == 2 * n) by (bit_vector);
    assert(n < 0 ==> zigzag_encode(n) == -2 * n - 1) by (bit_vector);
}

pub open spec fn sp_varint32(bits: Seq<bool>) -> BitRead<i32> {
    let (r, b1) = sp_varint(bits);
    match r {
        Err(e) => (Err(e), b1),
        Ok(v) => (Ok(zigzag32(v)), b1),
    }
}

/// A 64-bit varint after `count` bytes that gave `acc`; `None` where the
/// encoding runs past ten bytes or overflows 64 bits (the reader panics there).
pub open spec fn sp_varint_u64_from(bits: Seq<bool>, count: nat, acc: u64) -> Option<BitRead<u64>>
    decreases 10 - count,
{
    let (r, b1) = sp_nbits(bits, 8);
    match r {
        Err(e) => Some((Err(e), b1)),
        Ok(x) => if count >= 10 {
            None
        } else if x < 128 {
            if count > 9 || (count == 9 && x > 1) {
                None
            } else {
                Some((Ok(acc | ((x as u64) << ((7 * count) as u64))), b1))
            }
        } else {
            sp_varint_u64_from(b1, count + 1, acc | (((x as u64) & 127u64) << ((7 * count) as u64)))
        },
    }
}

/// The field-path index encoding: a prefix of flags selects a width of 2, 4,
/// 10, 17 or 31 bits.
pub open spec fn sp_ubit_var_fp(bits: Seq<bool>) -> BitRead<u32> {
    let (r1, b1) = sp_bool(bits);
    match r1 {
        Err(e) => (Err(e), b1),
        Ok(true) => sp_nbits(b1, 2),
        Ok(false) => {
            let (r2, b2) = sp_bool(b1);
            match r2 {
                Err(e) => (Err(e), b2),
                Ok(true) => sp_nbits(b2, 4),
                Ok(false) => {
                    let (r3, b3) = sp_bool(b2);
                    match r3 {
                        Err(e) => (Err(e), b3),
                        Ok(true) => sp_nbits(b3, 10),
                        Ok(false) => {
                            let (r4, b4) = sp_bool(b3);
                            match r4 {
                                Err(e) => (Err(e), b4),
                                Ok(true) => sp_nbits(b4, 17),
                                Ok(false) => sp_nbits(b4, 31),
                            }
                        },
                    }
                },
            }
        },
    }
}

/// A reader of bit-packed data.
pub struct Bitreader<'a> {
    pub reader: LittleEndianReader<'a>,
}

impl<'a> Bitreader<'a> {
    /// The bits still to be read.
    pub open spec fn bits(self) -> Seq<bool> {
        reader_bits(self.reader)
    }

    pub fn new(bytes: &'a [u8]) -> (b: Bitreader<'a>)
        ensures
            b.bits() == bytes_to_bits(bytes@),
    {
        let b = Bitreader { reader: le_reader_new(bytes) };
        b
    }

    /// The next `n` bits (1 to 32) as a number.
    #[inline(always)]
    pub fn read_nbits(&mut self, n: u32) -> (res: Result<u32, DemoParserError>)
        requires
            1 <= n <= 32,
        ensures
            (res, final(self).bits()) == sp_nbits(old(self).bits(), n as nat),
    {
        proof {
            let ghost taken = old(self).bits().take(n as int);
            if old(self).bits().len() >= n {
                lemma_bits_value_bound(taken);
                lemma2_to64();
                if n < 32 {
                    lemma_pow2_strictly_increases(n as nat, 32);
                }
                assert(bits_value(taken) < 0x1_0000_0000);
            }
        }
        match le_read_bits(&mut self.reader, n) {
            Some(bits) => Ok(#[verifier::truncate] (bits as u32)),
            None => Err(DemoParserError::OutOfBitsError),
        }
    }

    #[inline(always)]
    pub fn read_u_bit_var(&mut self) -> (res: Result<u32, DemoParserError>)
        ensures
            (res, final(self).bits()) == sp_u_bit_var(old(self).bits()),
    {
        let bits = self.read_nbits(6)?;
        match bits & 48 {
            16 => return Ok((bits & 15) | (self.read_nbits(4)? << 4)),
            32 => return Ok((bits & 15) | (self.read_nbits(8)? << 4)),
            48 => return Ok((bits & 15) | (self.read_nbits(28)? << 4)),
            _ => return Ok(bits),
        }
    }

    #[inline(always)]
    pub fn read_varint32(&mut self) -> (res: Result<i32, DemoParserError>)
        ensures
            (res, final(self).bits()) == sp_varint32(old(self).bits()),
    {
        let x = #[verifier::truncate] (self.read_varint()? as i32);
        let mut y = x >> 1;
        if x & 1 != 0 {
            y = !y;
        }
        Ok(y)
    }

    #[inline(always)]
    pub fn read_varint(&mut self) -> (res: Result<u32, DemoParserError>)
        ensures
            (res, final(self).bits()) == sp_varint(old(self).bits()),
    {
        let mut result: u32 = 0;
        let mut count: u32 = 0;
        let mut b: u32;
        loop
            invariant
                count <= 5,
                sp_varint(old(self).bits()) == sp_varint_from(self.bits(), count as nat, result),
            decreases 5 - count,
        {
            if count >= 5 {
                return Ok(result);
            }
            b = self.read_nbits(8)?;
            result |= (b & 127) << (7 * count);
            count += 1;
            if b & 0x80 == 0 {
                return Ok(result);
            }
        }
    }

    #[inline(always)]
    pub fn read_varint_u_64(&mut self) -> (res: Result<u64, DemoParserError>)
        requires
            sp_varint_u64_from(old(self).bits(), 0, 0) is Some,
        ensures
            (res, final(self).bits()) == sp_varint_u64_from(old(self).bits(), 0, 0)->0,
    {
        let mut result: u64 = 0;
        let mut count: u64 = 0;
        let mut b: u32;
        let mut s: u64 = 0;
        loop
            invariant
                count <= 10,
                s == 7 * count,
                sp_varint_u64_from(old(self).bits(), 0, 0) == sp_varint_u64_from(self.bits(), count as nat, result),
                sp_varint_u64_from(self.bits(), count as nat, result) is Some,
            decreases 10 - count,
        {
            b = self.read_nbits(8)?;
            if count >= 10 {
                proof {
                    assert(false);
                }
            }
            if b < 0x80 {
                if count > 9 || count == 9 && b > 1 {
                    proof {
                        assert(false);
                    }
                }
                return Ok(result | (b as u64) << s);
            }
            result |= ((b as u64) & 127) << s;
            count += 1;
            s += 7;
        }
    }

    #[inline(always)]
    pub fn read_boolean(&mut self) -> (res: Result<bool, DemoParserError>)
        ensures
            (res, final(self).bits()) == sp_bool(old(self).bits()),
    {
        match le_read_bit(&mut self.reader) {
            Some(b) => Ok(b),
            None => Err(DemoParserError::OutOfBitsError),
        }
    }

    /// How many bits are left.
    pub fn bits_remaining(&self) -> (res: Option<usize>)
        requires
            self.bits().len() <= usize::MAX,
        ensures
            res == Some(self.bits().len() as usize),
    {
        le_bits_remaining(&self.reader)
    }

    /// The next `n` whole bytes.
    pub fn read_n_bytes(&mut self, n: usize) -> (res: Result<Vec<u8>, DemoParserError>)
        requires
            old(self).bits().len() <= usize::MAX,
        ensures
            old(self).bits().len() >= 8 * n ==> (res matches Ok(v)
                && v@ == bits_to_bytes(old(self).bits().take(8 * n))
                && final(self).bits() == old(self).bits().skip(8 * n)),
            old(self).bits().len() < 8 * n ==> (res matches Err(DemoParserError::FailedByteRead(m))
                && m@ == failed_read_text(old(self).bits().len() / 8, n as nat)
                && final(self).bits() == old(self).bits()),
    {
        let mut bytes = vec![0u8; n];
        match le_read_bytes(&mut self.reader, &mut bytes, n) {
            true => {
                assert(bytes@.skip(n as int) =~= Seq::<u8>::empty());
                Ok(bytes)
            },
            false => {
                let left = le_bits_remaining(&self.reader).unwrap() / 8;
                Err(DemoParserError::FailedByteRead(failed_read_message(left, n)))
            },
        }
    }

    /// Fills the first `n` bytes of `buf` with the next `n` whole bytes.
    pub fn read_n_bytes_mut(&mut self, n: usize, buf: &mut Vec<u8>) -> (res: Result<(), DemoParserError>)
        requires
            n <= old(buf)@.len(),
            old(self).bits().len() <= usize::MAX,
        ensures
            old(self).bits().len() >= 8 * n ==> res is Ok
                && final(buf)@ == bits_to_bytes(old(self).bits().take(8 * n)) + old(buf)@.skip(n as int)
                && final(self).bits() == old(self).bits().skip(8 * n),
            old(self).bits().len() < 8 * n ==> (res matches Err(DemoParserError::FailedByteRead(m))
                && m@ == failed_read_text(old(self).bits().len() / 8, n as nat)
                && final(buf)@ == old(buf)@ && final(self).bits() == old(self).bits()),
    {
        match le_read_bytes(&mut self.reader, buf, n) {
            true => Ok(()),
            false => {
                let left = le_bits_remaining(&self.reader).unwrap() / 8;
                Err(DemoParserError::FailedByteRead(failed_read_message(left, n)))
            },
        }
    }

    #[inline(always)]
    pub fn read_ubit_var_fp(&mut self) -> (res: Result<u32, DemoParserError>)
        ensures
            (res, final(self).bits()) == sp_ubit_var_fp(old(self).bits()),
    {
        if self.read_boolean()? {
            return Ok(self.read_nbits(2)?);
        }
        if self.read_boolean()? {
            return Ok(self.read_nbits(4)?);
        }
        if self.read_boolean()? {
            return Ok(self.read_nbits(10)?);
        }
        if self.read_boolean()? {
            return Ok(self.read_nbits(17)?);
        }
        return Ok(self.read_nbits(31)?);
    }

    /// Ammunition: a varint, one less than stored for a non-zero value.
    pub fn decode_ammo(&mut self) -> (res: Result<u32, DemoParserError>)
        ensures
            ({
                let (r, rest) = sp_varint(old(self).bits());
                &&& final(self).bits() == rest
                &&& match r {
                    Ok(v) => res == Ok::<u32, DemoParserError>(if v > 0 { (v - 1) as u32 } else { v }),
                    Err(e) => res == Err::<u32, DemoParserError>(e),
                }
            }),
    {
        let ammo = self.read_varint()?;
        if ammo > 0 {
            return Ok(ammo - 1);
        }
        return Ok(ammo);
    }

    /// A 64-bit number from the next eight whole bytes, in the machine's byte
    /// order.
    pub fn decode_uint64(&mut self) -> (res: Result<u64, DemoParserError>)
        requires
            old(self).bits().len() <= usize::MAX,
        ensures
            old(self).bits().len() >= 64 ==> (res matches Ok(v) && (v == le_u64(
                bits_to_bytes(old(self).bits().take(64)),
            ) || v == be_u64(bits_to_bytes(old(self).bits().take(64)))) && final(self).bits() == old(
                self,
            ).bits().skip(64)),
            old(self).bits().len() < 64 ==> (res matches Err(DemoParserError::FailedByteRead(m))
                && m@ == failed_read_text(old(self).bits().len() / 8, 8)
                && final(self).bits() == old(self).bits()),
    {
        let bytes = self.read_n_bytes(8)?;
        proof {
            assert(8 * 8 == 64);
        }
        Ok(u64_from_ne_bytes(&bytes))
    }

    /// A zero-terminated string: bytes up to the first zero byte (which is
    /// consumed), read as UTF-8 text with invalid sequences replaced.
    pub fn read_string(&mut self) -> (res: Result<String, DemoParserError>)
        ensures
            ({
                let (r, rest) = sp_string_bytes(old(self).bits(), Seq::empty());
                &&& final(self).bits() == rest
                &&& match r {
                    Ok(b) => res matches Ok(s) && s@ == utf8_lossy_text(b) && (vstd::utf8::valid_utf8(b)
                        ==> s@ == vstd::utf8::decode_utf8(b)),
                    Err(e) => res == Err::<String, DemoParserError>(e),
                }
            }),
    {
        let mut s: Vec<u8> = vec![];
        loop
            invariant
                sp_string_bytes(old(self).bits(), Seq::empty()) == sp_string_bytes(self.bits(), s@),
            decreases self.bits().len(),
        {
            let c = self.read_nbits(8)?;
            let c = #[verifier::truncate] (c as u8);
            if c == 0 {
                return Ok(lossy_utf8_string(&s));
            }
            s.push(c);
        }
    }
}

/// The bytes of a zero-terminated string read from `bits`, after `acc`: the
/// bytes and the bits behind the zero byte.
pub open spec fn sp_string_bytes(bits: Seq<bool>, acc: Seq<u8>) -> BitRead<Seq<u8>>
    decreases bits.len(),
{
    let (r, rest) = sp_nbits(bits, 8);
    match r {
        Err(e) => (Err(e), rest),
        Ok(c) => if c as u8 == 0 {
            (Ok(acc), rest)
        } else {
            sp_string_bytes(rest, acc.push(c as u8))
        },
    }
}

/// The number whose little-endian bytes are `b[0..8]`.
pub open spec fn le_u64(b: Seq<u8>) -> u64 {
    (b[0] as int + 0x100 * b[1] as int + 0x10000 * b[2] as int + 0x1000000 * b[3] as int + 0x100000000
        * b[4] as int + 0x10000000000 * b[5] as int + 0x1000000000000 * b[6] as int + 0x100000000000000
        * b[7] as int) as u64
}

/// The number whose big-endian bytes are `b[0..8]`.
pub open spec fn be_u64(b: Seq<u8>) -> u64 {
    le_u64(seq![b[7], b[6], b[5], b[4], b[3], b[2], b[1], b[0]])
}

/// `u64::from_ne_bytes` on eight bytes: the number they hold in the byte
/// order of the machine, which is little-endian or big-endian; which one is
/// left unsaid.
#[verifier::external_body]
fn u64_from_ne_bytes(bytes: &Vec<u8>) -> (v: u64)
    requires
        bytes@.len() == 8,
    ensures
        v == le_u64(bytes@) || v == be_u64(bytes@),
{
    let arr: [u8; 8] = [bytes[0], bytes[1], bytes[2], bytes[3], bytes[4], bytes[5], bytes[6], bytes[7]];
    u64::from_ne_bytes(arr)
}

/// The text that `String::from_utf8_lossy` makes of `bytes`: the UTF-8 they
/// encode, each invalid sequence replaced by U+FFFD.
pub uninterp spec fn utf8_lossy_text(bytes: Seq<u8>) -> Seq<char>;

/// `String::from_utf8_lossy`, made an owned string: its text
/// (`utf8_lossy_text`), which for valid UTF-8 is the text the bytes encode.
#[verifier::external_body]
fn lossy_utf8_string(bytes: &Vec<u8>) -> (s: String)
    ensures
        s@ == utf8_lossy_text(bytes@),
        vstd::utf8::valid_utf8(bytes@) ==> s@ == vstd::utf8::decode_utf8(bytes@),
{
    String::from_utf8_lossy(bytes).to_string()
}

} // verus!
