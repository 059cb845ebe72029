//! Sound: WAV files, raw samples, and what is handed to the sound card.

use crate::num::{low_u32, F32Bits};
use vstd::prelude::*;

verus! {

/// The rate at which speech is sent to the guide.
pub const SPEECH_RATE: u32 = 16000;

/// The rate at which the guide answers.
pub const TTS_RATE: u32 = 24000;

/// The two low bytes of `n`, the lowest first.
pub open spec fn le16(n: int) -> Seq<u8> {
    seq![(n % 256) as u8, (n / 256 % 256) as u8]
}

/// The four low bytes of `n`, the lowest first.
pub open spec fn le32(n: int) -> Seq<u8> {
    le16(n) + le16(n / 65536)
}

/// The bytes of sixteen-bit samples.
pub open spec fn sample_bytes(samples: Seq<i16>) -> Seq<u8>
    decreases samples.len(),
{
    if samples.len() == 0 {
        Seq::empty()
    } else {
        sample_bytes(samples.drop_last()) + le16(samples.last() as int % 65536)
    }
}

/// What stands before the samples of a WAV file with one channel of sixteen bits.
pub open spec fn wav_header(data_size: int, sample_rate: int) -> Seq<u8> {
    seq![82u8, 73, 70, 70] + le32(36 + data_size) + seq![87u8, 65, 86, 69] + seq![
        102u8,
        109,
        116,
        32,
    ] + le32(16) + le16(1) + le16(1) + le32(sample_rate) + le32(sample_rate * 2) + le16(2)
        + le16(16) + seq![100u8, 97, 116, 97] + le32(data_size)
}

/// The size that the header of a WAV file gives for `len` samples.
pub open spec fn wav_data_size(len: int) -> int {
    len % 0x1_0000_0000 * 2
}

fn push_le16(out: &mut Vec<u8>, n: u16)
    ensures
        final(out)@ == old(out)@ + le16(n as int),
{
    out.push((n % 256) as u8);
    out.push((n / 256) as u8);
    assert(n / 256 % 256 == n / 256);
    assert(out@ == old(out)@ + le16(n as int));
}

fn push_le32(out: &mut Vec<u8>, n: u32)
    ensures
        final(out)@ == old(out)@ + le32(n as int),
{
    let low: u16 = (n % 65536) as u16;
    let high: u16 = (n / 65536) as u16;
    push_le16(out, low);
    push_le16(out, high);
    assert(n % 65536 % 256 == n % 256);
    assert(n % 65536 / 256 % 256 == n / 256 % 256);
    assert(le16(low as int) == le16(n as int));
    assert(out@ == old(out)@ + le32(n as int));
}

fn push_tag(out: &mut Vec<u8>, a: u8, b: u8, c: u8, d: u8)
    ensures
        final(out)@ == old(out)@ + seq![a, b, c, d],
{
    out.push(a);
    out.push(b);
    out.push(c);
    out.push(d);
    assert(out@ == old(out)@ + seq![a, b, c, d]);
}

/// The bits of a sample, read without sign.
fn unsigned(sample: i16) -> (r: u16)
    ensures
        r == sample as int % 65536,
{
    let wide: i32 = sample as i32;
    if wide < 0 {
        (wide + 65536) as u16
    } else {
        wide as u16
    }
}

/// Writes a WAV file with one channel of sixteen bits.
pub fn create_wav_buffer(samples: &[i16], sample_rate: u32) -> (r: Vec<u8>)
    requires
        sample_rate * 16 <= u32::MAX,
        36 + wav_data_size(samples@.len() as int) <= u32::MAX,
    ensures
        r@ == wav_header(wav_data_size(samples@.len() as int), sample_rate as int)
            + sample_bytes(samples@),
{
    let data_size: u32 = low_u32(samples.len()) * 2;
    let mut out: Vec<u8> = Vec::new();
    push_tag(&mut out, 82, 73, 70, 70);
    assert(out@ == seq![82u8, 73, 70, 70]);
    push_le32(&mut out, 36 + data_size);
    push_tag(&mut out, 87, 65, 86, 69);
    push_tag(&mut out, 102, 109, 116, 32);
    push_le32(&mut out, 16);
    push_le16(&mut out, 1);
    push_le16(&mut out, 1);
    push_le32(&mut out, sample_rate);
    push_le32(&mut out, sample_rate * 16 / 8);
    push_le16(&mut out, 2);
    push_le16(&mut out, 16);
    push_tag(&mut out, 100, 97, 116, 97);
    push_le32(&mut out, data_size);
    let ghost header = out@;
    assert(header == wav_header(data_size as int, sample_rate as int));
    assert(header + sample_bytes(samples@.take(0)) == header);
    for i in 0..samples.len()
        invariant
            out@ == header + sample_bytes(samples@.take(i as int)),
    {
        push_le16(&mut out, unsigned(samples[i]));
        assert(samples@.take(i + 1).drop_last() == samples@.take(i as int));
        assert(samples@.take(i + 1).last() == samples@[i as int]);
        assert(out@ == header + sample_bytes(samples@.take(i + 1)));
    }
    assert(samples@.take(samples@.len() as int) == samples@);
    out
}

/// The sample whose low and high bytes these are.
pub open spec fn sample_of(low: u8, high: u8) -> int {
    let n = low as int + 256 * high as int;
    if n < 32768 {
        n
    } else {
        n - 65536
    }
}

/// The samples that `bytes` holds; an odd byte at the end is left out.
pub open spec fn samples_of(bytes: Seq<u8>) -> Seq<i16> {
    Seq::new(
        bytes.len() / 2,
        |i: int| sample_of(bytes[2 * i], bytes[2 * i + 1]) as i16,
    )
}

/// Reads sixteen-bit samples, the low byte of each first.
pub fn i16_samples(bytes: &[u8]) -> (r: Vec<i16>)
    ensures
        r@ == samples_of(bytes@),
{
    let mut out: Vec<i16> = Vec::new();
    let count: usize = bytes.len() / 2;
    for i in 0..count
        invariant
            count == bytes.len() / 2,
            out@ == samples_of(bytes@).take(i as int),
    {
        let n: i32 = bytes[2 * i] as i32 + 256 * bytes[2 * i + 1] as i32;
        let sample: i16 = if n < 32768 {
            n as i16
        } else {
            (n - 65536) as i16
        };
        out.push(sample);
        assert(samples_of(bytes@)[i as int] == sample);
        assert(out@ == samples_of(bytes@).take(i + 1));
    }
    assert(samples_of(bytes@).take(count as int) == samples_of(bytes@));
    out
}

/// Samples that are written out are read back unchanged.
pub proof fn law_samples_read_back(samples: Seq<i16>)
    ensures
        sample_bytes(samples).len() == 2 * samples.len(),
        samples_of(sample_bytes(samples)) == samples,
    decreases samples.len(),
{
    if samples.len() > 0 {
        let rest = samples.drop_last();
        law_samples_read_back(rest);
        let n = samples.last() as int;
        let bytes = sample_bytes(samples);
        let before = sample_bytes(rest);
        let k = rest.len() as int;
        assert(bytes[2 * k] == le16(n % 65536)[0]);
        assert(bytes[2 * k + 1] == le16(n % 65536)[1]);
        assert(sample_of(bytes[2 * k], bytes[2 * k + 1]) == n);
        assert forall|i: int| 0 <= i < samples.len() implies samples_of(bytes)[i] == samples[i] by {
            if i < k {
                assert(bytes[2 * i] == before[2 * i]);
                assert(bytes[2 * i + 1] == before[2 * i + 1]);
                assert(samples_of(before)[i] == rest[i]);
            }
        }
        assert(samples_of(bytes) == samples);
    } else {
        assert(samples_of(sample_bytes(samples)) == samples);
    }
}

/// A WAV file has a header of 44 bytes, and what follows are the samples.
pub proof fn law_wav_holds_samples(samples: Seq<i16>, sample_rate: int)
    ensures
        ({
            let size = wav_data_size(samples.len() as int);
            let file = wav_header(size, sample_rate) + sample_bytes(samples);
            &&& file.len() == 44 + 2 * samples.len()
            &&& samples_of(file.skip(44)) == samples
            &&& samples.len() < 0x1_0000_0000 ==> size == sample_bytes(samples).len()
        }),
{
    let size = wav_data_size(samples.len() as int);
    let header = wav_header(size, sample_rate);
    let file = header + sample_bytes(samples);
    law_samples_read_back(samples);
    assert(header.len() == 44);
    assert(file.skip(44) == sample_bytes(samples));
}

/// Whether samples have to be brought to another rate.
pub fn needs_resampling(from_hz: u32, to_hz: usize) -> (r: bool)
    ensures
        r == (from_hz != to_hz),
{
    from_hz as usize != to_hz
}

/// What is played after `cursor` samples were: a sample, or silence at the end.
pub open spec fn played(samples: Seq<F32Bits>, at: int) -> F32Bits {
    if at < samples.len() {
        samples[at]
    } else {
        F32Bits { bits: 0 }
    }
}

/// How many frames of `channels` values a buffer of `len` values has; the last one may
/// be cut short.
pub open spec fn frames(len: int, channels: int) -> int {
    crate::num::ceil_div(len, channels)
}

/// Fills a buffer of `len` values for a device with `channels` channels: every channel
/// of a frame gets the next sample. Also gives the number of samples played from then on.
pub fn fill_output(samples: &Vec<F32Bits>, cursor: usize, len: usize, channels: usize) -> (r: (
    Vec<F32Bits>,
    usize,
))
    requires
        channels > 0,
        cursor <= samples.len(),
    ensures
        r.0.len() == len,
        forall|k: int|
            0 <= k < len ==> #[trigger] r.0[k] == played(samples@, cursor + k / channels as int),
        r.1 == if cursor + frames(len as int, channels as int) < samples.len() {
            cursor + frames(len as int, channels as int)
        } else {
            samples.len() as int
        },
{
    let mut out: Vec<F32Bits> = Vec::new();
    let mut next: usize = cursor;
    let ghost mut frame: int = 0;
    let mut filled: usize = 0;
    while filled < len
        invariant
            channels > 0,
            cursor <= next <= samples.len(),
            frame >= 0,
            next == if cursor + frame < samples.len() {
                cursor + frame
            } else {
                samples.len() as int
            },
            out.len() == filled,
            filled <= len,
            filled < len ==> filled == frame * channels,
            filled == len ==> frame == frames(len as int, channels as int),
            forall|k: int|
                0 <= k < filled ==> #[trigger] out[k] == played(
                    samples@,
                    cursor + k / channels as int,
                ),
        decreases len - filled,
    {
        let value = if next < samples.len() {
            samples[next]
        } else {
            F32Bits { bits: 0 }
        };
        assert(value == played(samples@, cursor + frame));
        if next < samples.len() {
            next = next + 1;
        }
        let end: usize = if len - filled < channels {
            len
        } else {
            filled + channels
        };
        let ghost start = filled as int;
        while filled < end
            invariant
                channels > 0,
                filled <= end <= len,
                out.len() == filled,
                start == frame * channels,
                start <= filled,
                end <= start + channels,
                value == played(samples@, cursor + frame),
                forall|k: int|
                    0 <= k < filled ==> #[trigger] out[k] == played(
                        samples@,
                        cursor + k / channels as int,
                    ),
            decreases end - filled,
        {
            out.push(value);
            assert(filled as int / channels as int == frame) by (nonlinear_arith)
                requires
                    frame * channels <= filled < frame * channels + channels,
                    channels > 0,
            ;
            filled = filled + 1;
        }
        proof {
            assert((frame + 1) * channels == frame * channels + channels) by (nonlinear_arith);
            if filled == len {
                lemma_frames(len as int, channels as int, frame + 1);
            }
            frame = frame + 1;
        }
    }
    (out, next)
}

proof fn lemma_frames(len: int, channels: int, n: int)
    requires
        channels > 0,
        (n - 1) * channels < len <= n * channels,
    ensures
        frames(len, channels) == n,
{
    let q = len / channels;
    let m = len % channels;
    assert(len == q * channels + m && 0 <= m < channels) by (nonlinear_arith)
        requires
            q == len / channels,
            m == len % channels,
            channels > 0,
    ;
    assert(m == 0 ==> q == n) by (nonlinear_arith)
        requires
            len == q * channels + m,
            (n - 1) * channels < len <= n * channels,
            channels > 0,
    ;
    assert(m > 0 ==> q == n - 1) by (nonlinear_arith)
        requires
            len == q * channels + m,
            0 <= m < channels,
            (n - 1) * channels < len <= n * channels,
            channels > 0,
    ;
}

/// The number that four bytes stand for, the lowest first.
pub open spec fn number_at(bytes: Seq<u8>, at: int) -> int {
    bytes[at] + 256 * bytes[at + 1] + 65536 * bytes[at + 2] + 16777216 * bytes[at + 3]
}

/// The number that two bytes stand for, the lower one first.
pub open spec fn short_at(bytes: Seq<u8>, at: int) -> int {
    bytes[at] + 256 * bytes[at + 1]
}

proof fn lemma_le32(n: int)
    requires
        0 <= n < 0x1_0000_0000,
    ensures
        le32(n).len() == 4,
        number_at(le32(n), 0) == n,
{
    let b = le32(n);
    let high = n / 65536;
    assert(b[0] == n % 256 && b[1] == n / 256 % 256);
    assert(b[2] == high % 256 && b[3] == high / 256 % 256);
    assert(n == 65536 * high + n % 65536);
    assert(n % 65536 == 256 * (n / 256 % 256) + n % 256);
    assert(high == 256 * (high / 256) + high % 256);
    assert(high / 256 % 256 == high / 256);
}

/// The header of a WAV file can be read back: the sizes of file and data, the kind of
/// samples, one channel, the rate in samples and in bytes, two bytes for a sample of
/// sixteen bits, and the four names where they belong.
pub proof fn law_wav_header_reads_back(size: int, rate: int)
    requires
        0 <= size,
        36 + size < 0x1_0000_0000,
        0 <= rate,
        2 * rate < 0x1_0000_0000,
    ensures
        ({
            let header = wav_header(size, rate);
            &&& header.len() == 44
            &&& header[0] == 'R' as int && header[1] == 'I' as int && header[2] == 'F' as int
                && header[3] == 'F' as int
            &&& number_at(header, 4) == size + 36
            &&& header[8] == 'W' as int && header[9] == 'A' as int && header[10] == 'V' as int
                && header[11] == 'E' as int
            &&& header[12] == 'f' as int && header[13] == 'm' as int && header[14] == 't' as int
                && header[15] == ' ' as int
            &&& number_at(header, 16) == 16
            &&& short_at(header, 20) == 1
            &&& short_at(header, 22) == 1
            &&& number_at(header, 24) == rate
            &&& number_at(header, 28) == 2 * rate
            &&& short_at(header, 32) == 2
            &&& short_at(header, 34) == 16
            &&& header[36] == 'd' as int && header[37] == 'a' as int && header[38] == 't' as int
                && header[39] == 'a' as int
            &&& number_at(header, 40) == size
        }),
{
    let header = wav_header(size, rate);
    lemma_le32(36 + size);
    lemma_le32(16);
    lemma_le32(rate);
    lemma_le32(rate * 2);
    lemma_le32(size);
    let a = le32(36 + size);
    assert(header[4] == a[0] && header[5] == a[1] && header[6] == a[2] && header[7] == a[3]);
    let b = le32(16);
    assert(header[16] == b[0] && header[17] == b[1] && header[18] == b[2] && header[19] == b[3]);
    let c = le32(rate);
    assert(header[24] == c[0] && header[25] == c[1] && header[26] == c[2] && header[27] == c[3]);
    let d = le32(rate * 2);
    assert(header[28] == d[0] && header[29] == d[1] && header[30] == d[2] && header[31] == d[3]);
    let e = le32(size);
    assert(header[40] == e[0] && header[41] == e[1] && header[42] == e[2] && header[43] == e[3]);
}

/// A sample stands in two bytes, the lower one first; as a number without sign it is the
/// sample itself, or lies sixteen bits above it.
pub proof fn law_bytes_of_samples(samples: Seq<i16>, i: int)
    requires
        0 <= i < samples.len(),
    ensures
        sample_bytes(samples).len() == 2 * samples.len(),
        short_at(sample_bytes(samples), 2 * i) == if samples[i] >= 0 {
            samples[i] as int
        } else {
            samples[i] + 65536
        },
    decreases samples.len(),
{
    law_samples_read_back(samples);
    let rest = samples.drop_last();
    law_samples_read_back(rest);
    let all = sample_bytes(samples);
    let before = sample_bytes(rest);
    if i < rest.len() {
        law_bytes_of_samples(rest, i);
        assert(all[2 * i] == before[2 * i] && all[2 * i + 1] == before[2 * i + 1]);
    } else {
        let n = samples.last() as int % 65536;
        assert(all[2 * i] == le16(n)[0] && all[2 * i + 1] == le16(n)[1]);
        assert(n == 256 * (n / 256) + n % 256);
        assert(n / 256 % 256 == n / 256);
    }
}

/// What is played is a sample as long as there is one, and silence from then on.
pub proof fn law_played(samples: Seq<F32Bits>, at: int)
    ensures
        0 <= at < samples.len() ==> played(samples, at) == samples[at],
        at >= samples.len() ==> played(samples, at).bits == 0,
{
}

/// Frames of so many channels cover a buffer, and no frame lies behind it.
pub proof fn law_frames_cover(len: int, channels: int)
    requires
        len >= 0,
        channels > 0,
    ensures
        frames(len, channels) * channels >= len,
        len > 0 ==> (frames(len, channels) - 1) * channels < len,
        len == 0 ==> frames(len, channels) == 0,
{
    crate::num::lemma_ceil_div(len, channels);
}

/// The size that a WAV file gives for its data is two bytes for each sample.
pub proof fn law_wav_data_size(len: int)
    requires
        0 <= len < 0x1_0000_0000,
    ensures
        wav_data_size(len) == len + len,
{
}

} // verus!
