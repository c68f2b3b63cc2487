use vstd::prelude::*;

verus! {

/// The four bytes of `v`, least significant first.
pub open spec fn le32(v: u32) -> Seq<u8> {
    seq![(v % 256) as u8, ((v / 256) % 256) as u8, ((v / 65536) % 256) as u8, (v / 16777216) as u8]
}

/// The two bytes of `v`, least significant first.
pub open spec fn le16(v: u16) -> Seq<u8> {
    seq![(v % 256) as u8, (v / 256) as u8]
}

/// The 44-byte header of a PCM WAV file: the RIFF chunk with its size, the
/// format chunk (PCM, channels, sample rate, byte rate, block alignment, bits
/// per sample) and the header of the data chunk. Sizes and rates wrap around
/// where they overflow 32 (or 16) bits.
pub open spec fn wav_header(num_channels: u16, sample_rate: u32, bits_per_sample: u16, data_size: u32) -> Seq<u8> {
    let byte_rate = sample_rate.wrapping_mul(num_channels as u32).wrapping_mul(bits_per_sample as u32) / 8;
    let block_align = num_channels.wrapping_mul(bits_per_sample) / 8;
    seq![0x52u8, 0x49, 0x46, 0x46] + le32(data_size.wrapping_add(36)) + seq![0x57u8, 0x41, 0x56, 0x45]
        + seq![0x66u8, 0x6d, 0x74, 0x20] + le32(16) + le16(1) + le16(num_channels) + le32(sample_rate)
        + le32(byte_rate) + le16(block_align) + le16(bits_per_sample) + seq![0x64u8, 0x61, 0x74, 0x61]
        + le32(data_size)
}

fn push_le32(out: &mut Vec<u8>, v: u32)
    ensures
        final(out)@ == old(out)@ + le32(v),
{
    out.push((v % 256) as u8);
    out.push(((v / 256) % 256) as u8);
    out.push(((v / 65536) % 256) as u8);
    out.push((v / 16777216) as u8);
}

fn push_le16(out: &mut Vec<u8>, v: u16)
    ensures
        final(out)@ == old(out)@ + le16(v),
{
    out.push((v % 256) as u8);
    out.push((v / 256) as u8);
}

fn push_tag(out: &mut Vec<u8>, a: u8, b: u8, c: u8, d: u8)
    ensures
        final(out)@ == old(out)@ + seq![a, b, c, d],
{
    out.push(a);
    out.push(b);
    out.push(c);
    out.push(d);
}

/// The header of a WAV file holding `data_size` bytes of PCM samples.
pub fn generate_wav_header(num_channels: u16, sample_rate: u32, bits_per_sample: u16, data_size: u32) -> (header: Vec<u8>)
    ensures
        header@ == wav_header(num_channels, sample_rate, bits_per_sample, data_size),
{
    let mut header = Vec::new();
    // RIFF header
    push_tag(&mut header, 0x52, 0x49, 0x46, 0x46);
    push_le32(&mut header, data_size.wrapping_add(36));
    push_tag(&mut header, 0x57, 0x41, 0x56, 0x45);
    // Format chunk
    push_tag(&mut header, 0x66, 0x6d, 0x74, 0x20);
    push_le32(&mut header, 16);
    push_le16(&mut header, 1);
    push_le16(&mut header, num_channels);
    push_le32(&mut header, sample_rate);
    push_le32(&mut header, sample_rate.wrapping_mul(num_channels as u32).wrapping_mul(bits_per_sample as u32) / 8);
    push_le16(&mut header, num_channels.wrapping_mul(bits_per_sample) / 8);
    push_le16(&mut header, bits_per_sample);
    // Data chunk
    push_tag(&mut header, 0x64, 0x61, 0x74, 0x61);
    push_le32(&mut header, data_size);
    header
}

} // verus!
