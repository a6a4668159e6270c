//! Encoding of 16-bit mono samples as a RIFF/WAVE byte stream.

use vstd::prelude::*;

verus! {

/// A sample that can be turned into a signed 16-bit value.
pub trait Sample {
    /// The 16-bit value of the sample.
    spec fn spec_to_i16(&self) -> i16;

    /// The 16-bit value of the sample.
    fn to_i16(&self) -> (r: i16)
        ensures
            r == self.spec_to_i16(),
    ;
}

impl Sample for i16 {
    open spec fn spec_to_i16(&self) -> i16 {
        *self
    }

    fn to_i16(&self) -> (r: i16) {
        *self
    }
}

/// The four little-endian bytes of a 32-bit unsigned integer.
pub open spec fn le_u32(x: u32) -> Seq<u8> {
    seq![
        (x % 256) as u8,
        (x / 256 % 256) as u8,
        (x / 65536 % 256) as u8,
        (x / 16777216) as u8,
    ]
}

/// The two little-endian bytes of a 16-bit unsigned integer.
pub open spec fn le_u16(x: u16) -> Seq<u8> {
    seq![(x % 256) as u8, (x / 256) as u8]
}

/// The two little-endian bytes of a 16-bit signed integer in two's
/// complement.
pub open spec fn le_i16(x: i16) -> Seq<u8> {
    if x >= 0 {
        le_u16(x as u16)
    } else {
        le_u16((x + 65536) as u16)
    }
}

/// The data block of a stream: every sample in turn, two bytes each.
pub open spec fn pcm_bytes(samples: Seq<i16>) -> Seq<u8>
    decreases samples.len(),
{
    if samples.len() == 0 {
        Seq::empty()
    } else {
        pcm_bytes(samples.drop_last()) + le_i16(samples.last())
    }
}

/// The header of a stream of `count` mono samples at `sample_rate`.
pub open spec fn wave_header(count: nat, sample_rate: u32) -> Seq<u8>
    recommends
        wave_fits(count, sample_rate),
{
    seq![0x52u8, 0x49, 0x46, 0x46] + le_u32((36 + 2 * count) as u32) + seq![
        0x57u8,
        0x41,
        0x56,
        0x45,
    ] + seq![0x66u8, 0x6d, 0x74, 0x20] + le_u32(16) + le_u16(1) + le_u16(1) + le_u32(sample_rate)
        + le_u32((2 * sample_rate) as u32) + le_u16(2) + le_u16(16) + seq![0x64u8, 0x61, 0x74, 0x61]
        + le_u32((2 * count) as u32)
}

/// Whether the sizes of a stream can be written in its 32-bit fields.
pub open spec fn wave_fits(count: nat, sample_rate: u32) -> bool {
    36 + 2 * count <= u32::MAX && 2 * sample_rate <= u32::MAX
}

/// The 16-bit values of a sequence of samples.
pub open spec fn sample_values<S: Sample>(samples: Seq<S>) -> Seq<i16> {
    samples.map_values(|s: S| s.spec_to_i16())
}

fn push_u32(out: &mut Vec<u8>, x: u32)
    ensures
        final(out)@ == old(out)@ + le_u32(x),
{
    out.push((x % 256) as u8);
    out.push((x / 256 % 256) as u8);
    out.push((x / 65536 % 256) as u8);
    out.push((x / 16777216) as u8);
    assert(out@ =~= old(out)@ + le_u32(x));
}

fn push_u16(out: &mut Vec<u8>, x: u16)
    ensures
        final(out)@ == old(out)@ + le_u16(x),
{
    out.push((x % 256) as u8);
    out.push((x / 256) as u8);
    assert(out@ =~= old(out)@ + le_u16(x));
}

fn push_i16(out: &mut Vec<u8>, x: i16)
    ensures
        final(out)@ == old(out)@ + le_i16(x),
{
    if x >= 0 {
        push_u16(out, x as u16);
    } else {
        let lifted: i32 = x as i32 + 65536;
        push_u16(out, lifted as u16);
    }
}

fn push_tag(out: &mut Vec<u8>, a: u8, b: u8, c: u8, d: u8)
    ensures
        final(out)@ == old(out)@ + seq![a, b, c, d],
{
    out.push(a);
    out.push(b);
    out.push(c);
    out.push(d);
    assert(out@ =~= old(out)@ + seq![a, b, c, d]);
}

/// Encodes mono samples as a RIFF/WAVE stream with 16 bits per sample: the
/// header, then the samples.  There is no stream when a size does not fit its
/// 32-bit field.
pub fn write_pcm_as_ogg<S: Sample>(samples: &[S], sample_rate: u32) -> (r: Option<Vec<u8>>)
    ensures
        r is Some <==> wave_fits(samples@.len(), sample_rate),
        r matches Some(bytes) ==> bytes@ == wave_header(samples@.len(), sample_rate) + pcm_bytes(
            sample_values(samples@),
        ),
{
    let n = samples.len();
    if n > 2147483629 || sample_rate > 2147483647 {
        return None;
    }
    let data_len: u32 = (n as u32) * 2;
    let mut out: Vec<u8> = Vec::new();
    push_tag(&mut out, 0x52, 0x49, 0x46, 0x46);
    push_u32(&mut out, data_len + 36);
    push_tag(&mut out, 0x57, 0x41, 0x56, 0x45);
    push_tag(&mut out, 0x66, 0x6d, 0x74, 0x20);
    push_u32(&mut out, 16);
    push_u16(&mut out, 1);
    push_u16(&mut out, 1);
    push_u32(&mut out, sample_rate);
    push_u32(&mut out, sample_rate * 2);
    push_u16(&mut out, 2);
    push_u16(&mut out, 16);
    push_tag(&mut out, 0x64, 0x61, 0x74, 0x61);
    push_u32(&mut out, data_len);
    assert(out@ =~= wave_header(n as nat, sample_rate));
    let ghost header = out@;
    let mut i: usize = 0;
    while i < n
        invariant
            0 <= i <= n,
            n == samples@.len(),
            out@ == header + pcm_bytes(sample_values(samples@.take(i as int))),
        decreases n - i,
    {
        let v = samples[i].to_i16();
        proof {
            let done = sample_values(samples@.take(i as int));
            let next = sample_values(samples@.take(i + 1));
            assert(next.drop_last() =~= done);
            assert(next.last() == v);
        }
        push_i16(&mut out, v);
        assert(out@ =~= header + pcm_bytes(sample_values(samples@.take(i + 1))));
        i += 1;
    }
    assert(samples@.take(n as int) =~= samples@);
    Some(out)
}

} // verus!
