//! Frame payloads: cut out of the demo, and decompressed where they are
//! Snappy-compressed.
use vstd::prelude::*;

use crate::error::DemoParserError;
use crate::frameparser::Frame;

verus! {

#[verifier::external_type_specification]
#[verifier::external_body]
pub struct ExSnapError(snap::Error);

/// The number that a Snappy block starts with, read from byte `i` on: base
/// 128, least significant group first, a byte below 128 ending it, with the
/// count of bytes up to and including that one; `None` when no such byte
/// comes within the first five bytes.
pub open spec fn snappy_header_from(input: Seq<u8>, i: nat) -> Option<(int, nat)>
    decreases 5 - i,
{
    if i >= 5 || i >= input.len() {
        None
    } else if input[i as int] < 128 {
        Some((input[i as int] as int, i + 1))
    } else {
        match snappy_header_from(input, i + 1) {
            Some((v, n)) => Some((input[i as int] - 128 + 128 * v, n)),
            None => None,
        }
    }
}

/// The decompressed length of a Snappy block: 0 for no bytes at all, else
/// the number its header holds, where the header is well formed and the
/// number at most 2^32 - 1.
pub open spec fn snappy_len(input: Seq<u8>) -> Option<int> {
    if input.len() == 0 {
        Some(0)
    } else {
        match snappy_header_from(input, 0) {
            Some((v, _)) => if v <= 0xFFFF_FFFF {
                Some(v)
            } else {
                None
            },
            None => None,
        }
    }
}

/// The bytes that the Snappy block `input` decompresses to; `None` where
/// its data is not a valid block.
pub uninterp spec fn snappy_block(input: Seq<u8>) -> Option<Seq<u8>>;

/// `snap::raw::decompress_len`: the length that the block's header
/// announces (`snappy_len`), and an error where `snappy_len` has none.
#[verifier::external_body]
fn snappy_decompress_len(input: &[u8]) -> (r: Result<usize, snap::Error>)
    ensures
        match r {
            Ok(n) => snappy_len(input@) == Some(n as int),
            Err(_) => snappy_len(input@) is None,
        },
{
    snap::raw::decompress_len(input)
}

/// `snap::raw::Decoder::decompress` into `output`. It succeeds exactly for
/// a non-empty block with a good header, an `output` at least as long as
/// the announced length and valid data; it then returns that length, with
/// the decompressed bytes (`snappy_block`) at the front of `output` and the
/// rest of `output` untouched. What a failed call leaves in the front of
/// `output` is not stated.
#[verifier::external_body]
fn snappy_decompress(input: &[u8], output: &mut Vec<u8>) -> (r: Result<usize, snap::Error>)
    ensures
        final(output)@.len() == old(output)@.len(),
        r is Ok <==> (input@.len() > 0 && (snappy_len(input@) matches Some(l) && l <= old(output)@.len())
            && snappy_block(input@) is Some),
        r matches Ok(n) ==> snappy_len(input@) == Some(n as int) && snappy_block(input@) == Some(
            final(output)@.take(n as int),
        ) && final(output)@.skip(n as int) == old(output)@.skip(n as int),
{
    snap::raw::Decoder::new().decompress(input, output)
}

/// The text of a Snappy error, as its `Display` writes it (which is also
/// what `to_string` gives); what the text says is not stated.
#[verifier::external_body]
fn snap_error_text(e: &snap::Error) -> (s: String) {
    format!("{}", e)
}

/// `b` grown with zeros to length `len` where it is shorter.
pub open spec fn grown(b: Seq<u8>, len: int) -> Seq<u8> {
    if b.len() < len {
        b + Seq::new((len - b.len()) as nat, |i: int| 0u8)
    } else {
        b
    }
}

/// Makes `buf` at least `needed_len` long, adding zeros; a length that could
/// not be read becomes a decompression failure and leaves `buf` as it was.
pub fn resize_if_needed(buf: &mut Vec<u8>, needed_len: Result<usize, snap::Error>) -> (res: Result<(), DemoParserError>)
    ensures
        match needed_len {
            Ok(len) => res is Ok && final(buf)@ == grown(old(buf)@, len as int),
            Err(_) => (res matches Err(DemoParserError::DecompressionFailure(_))) && final(buf)@ == old(buf)@,
        },
{
    match needed_len {
        Ok(len) => {
            if buf.len() < len {
                let ghost before = buf@;
                buf.resize(len, 0);
                proof {
                    assert forall|i: int| before.len() <= i < len implies buf@[i] == 0u8 by {
                        assert(cloned::<u8>(0u8, buf@[i]));
                    }
                    assert(buf@ =~= grown(before, len as int));
                }
            }
        },
        Err(e) => return Err(DemoParserError::DecompressionFailure(snap_error_text(&e))),
    };
    Ok(())
}

/// The payload of `frame`: the bytes themselves where it is not compressed,
/// else the block they decompress to, written into `buf`. A compressed
/// payload that is empty, has a bad header or is not a valid block gives a
/// decompression failure.
pub fn decompress_if_needed<'b>(buf: &'b mut Vec<u8>, possibly_uncompressed_bytes: &'b [u8], frame: &Frame) -> (res:
    Result<&'b [u8], DemoParserError>)
    ensures
        !frame.is_compressed ==> res == Ok::<&[u8], DemoParserError>(possibly_uncompressed_bytes),
        frame.is_compressed ==> (res is Ok <==> (possibly_uncompressed_bytes@.len() > 0 && snappy_len(
            possibly_uncompressed_bytes@,
        ) is Some && snappy_block(possibly_uncompressed_bytes@) is Some)),
        frame.is_compressed ==> match res {
            Ok(bytes) => snappy_block(possibly_uncompressed_bytes@) == Some(bytes@),
            Err(e) => e is DecompressionFailure,
        },
{
    match frame.is_compressed {
        true => {
            resize_if_needed(buf, snappy_decompress_len(possibly_uncompressed_bytes))?;
            match snappy_decompress(possibly_uncompressed_bytes, buf) {
                Ok(idx) => {
                    let shared: &'b Vec<u8> = buf;
                    Ok(vstd::slice::slice_subrange(shared.as_slice(), 0, idx))
                },
                Err(e) => return Err(DemoParserError::DecompressionFailure(snap_error_text(&e))),
            }
        },
        false => Ok(possibly_uncompressed_bytes),
    }
}

/// The `frame_size` bytes of the demo from `ptr` on; `MalformedMessage`
/// unless they end before the last byte of the demo.
pub fn slice_packet_bytes<'a>(ptr: usize, demo_bytes: &'a [u8], frame_size: usize) -> (res: Result<&'a [u8], DemoParserError>)
    requires
        ptr + frame_size <= usize::MAX,
    ensures
        match res {
            Ok(bytes) => ptr + frame_size < demo_bytes@.len() && bytes@ == demo_bytes@.subrange(
                ptr as int,
                ptr + frame_size,
            ),
            Err(e) => ptr + frame_size >= demo_bytes@.len() && e == DemoParserError::MalformedMessage,
        },
{
    if ptr + frame_size >= demo_bytes.len() {
        return Err(DemoParserError::MalformedMessage);
    }
    Ok(vstd::slice::slice_subrange(demo_bytes, ptr, ptr + frame_size))
}

} // verus!
