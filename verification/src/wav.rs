//! The single-channel 16-bit PCM WAV container.
//!
//! The encoder produces the fixed 44-byte RIFF header followed by the
//! little-endian samples; the decoder scans the chunk list, reads the format
//! chunk, and extracts the raw samples.  Both directions are verified against
//! byte-level specifications, and a round-trip law connects them.

use vstd::bytes::{
    spec_u16_from_le_bytes, spec_u16_to_le_bytes, spec_u32_from_le_bytes, spec_u32_to_le_bytes,
    u16_from_le_bytes, u16_to_le_bytes, u32_from_le_bytes, u32_to_le_bytes,
    lemma_auto_spec_u16_to_from_le_bytes, lemma_auto_spec_u32_to_from_le_bytes,
};
use vstd::prelude::*;
use vstd::slice::slice_subrange;

use crate::errors::{FormatIssue, SttError};

verus! {

/// The sample rate the encoder always writes.
pub const WAV_SAMPLE_RATE: u32 = 16000;

/// Little-endian bytes of a 16-bit word.
pub open spec fn spec_le16(x: u16) -> Seq<u8> {
    spec_u16_to_le_bytes(x)
}

/// Little-endian bytes of a 32-bit word.
pub open spec fn spec_le32(x: u32) -> Seq<u8> {
    spec_u32_to_le_bytes(x)
}

/// The ASCII tag `"RIFF"`.
pub open spec fn spec_riff_tag() -> Seq<u8> {
    seq![0x52u8, 0x49u8, 0x46u8, 0x46u8]
}

/// The ASCII tag `"WAVE"`.
pub open spec fn spec_wave_tag() -> Seq<u8> {
    seq![0x57u8, 0x41u8, 0x56u8, 0x45u8]
}

/// The ASCII tag `"fmt "`.
pub open spec fn spec_fmt_tag() -> Seq<u8> {
    seq![0x66u8, 0x6du8, 0x74u8, 0x20u8]
}

/// The ASCII tag `"data"`.
pub open spec fn spec_data_tag() -> Seq<u8> {
    seq![0x64u8, 0x61u8, 0x74u8, 0x61u8]
}

/// The 44-byte header for a mono 16-bit PCM file with `data_len` sample bytes.
pub open spec fn spec_wav_header(rate: u32, data_len: u32) -> Seq<u8>
    recommends
        data_len + 36 <= u32::MAX,
        rate * 2 <= u32::MAX,
{
    spec_riff_tag() + spec_le32((data_len + 36) as u32) + spec_wave_tag() + spec_fmt_tag()
        + spec_le32(16) + spec_le16(1) + spec_le16(1) + spec_le32(rate)
        + spec_le32((rate * 2) as u32) + spec_le16(2) + spec_le16(16) + spec_data_tag()
        + spec_le32(data_len)
}

/// The samples laid out as consecutive little-endian 16-bit words.
pub open spec fn spec_sample_bytes(samples: Seq<i16>) -> Seq<u8>
    decreases samples.len(),
{
    if samples.len() == 0 {
        Seq::empty()
    } else {
        spec_le16(samples[0] as u16) + spec_sample_bytes(samples.drop_first())
    }
}

/// The complete container the encoder emits: header, then samples.
pub open spec fn spec_wav_bytes(samples: Seq<i16>) -> Seq<u8> {
    spec_wav_header(WAV_SAMPLE_RATE, (samples.len() * 2) as u32) + spec_sample_bytes(samples)
}

fn push_le16(out: &mut Vec<u8>, x: u16)
    ensures
        final(out)@ == old(out)@ + spec_le16(x),
{
    let mut b = u16_to_le_bytes(x);
    out.append(&mut b);
}

fn push_le32(out: &mut Vec<u8>, x: u32)
    ensures
        final(out)@ == old(out)@ + spec_le32(x),
{
    let mut b = u32_to_le_bytes(x);
    out.append(&mut b);
}

fn push_tag(out: &mut Vec<u8>, c0: u8, c1: u8, c2: u8, c3: u8)
    ensures
        final(out)@ == old(out)@ + seq![c0, c1, c2, c3],
{
    out.push(c0);
    out.push(c1);
    out.push(c2);
    out.push(c3);
    assert(final(out)@ =~= old(out)@ + seq![c0, c1, c2, c3]);
}

/// One more sample appends its two little-endian bytes.
pub proof fn lemma_sample_bytes_snoc(s: Seq<i16>, i: int)
    requires
        0 <= i < s.len(),
    ensures
        spec_sample_bytes(s.take(i + 1)) == spec_sample_bytes(s.take(i)) + spec_le16(s[i] as u16),
    decreases i,
{
    lemma_auto_spec_u16_to_from_le_bytes();
    if i == 0 {
        assert(s.take(1) =~= seq![s[0]]);
        assert(s.take(1).drop_first() =~= Seq::<i16>::empty());
        assert(s.take(0) =~= Seq::<i16>::empty());
        assert(s.take(1)[0] == s[0]);
        assert(spec_sample_bytes(Seq::<i16>::empty()) == Seq::<u8>::empty());
        assert(spec_sample_bytes(s.take(1)) == spec_le16(s[0] as u16) + Seq::<u8>::empty());
        assert(spec_le16(s[0] as u16) + Seq::<u8>::empty() =~= spec_le16(s[0] as u16));
    } else {
        lemma_sample_bytes_snoc(s.drop_first(), i - 1);
        assert(s.take(i + 1).drop_first() =~= s.drop_first().take(i));
        assert(s.take(i).drop_first() =~= s.drop_first().take(i - 1));
        assert(s.take(i + 1)[0] == s[0]);
        assert(s.take(i)[0] == s[0]);
        assert(spec_sample_bytes(s.take(i + 1)) == spec_le16(s[0] as u16) + spec_sample_bytes(
            s.drop_first().take(i),
        ));
        assert(spec_le16(s[0] as u16) + (spec_sample_bytes(s.drop_first().take(i - 1)) + spec_le16(
            s.drop_first()[i - 1] as u16,
        )) =~= (spec_le16(s[0] as u16) + spec_sample_bytes(s.drop_first().take(i - 1))) + spec_le16(
            s[i] as u16,
        ));
    }
}

/// Encode mono samples as a 16 kHz, 16-bit PCM WAV byte container.
pub fn encode_wav_bytes(samples: &Vec<i16>) -> (r: Vec<u8>)
    requires
        samples@.len() * 2 + 36 <= u32::MAX,
    ensures
        r@ == spec_wav_bytes(samples@),
{
    let n: usize = samples.len();
    let data_len: u32 = (n as u32) * 2;
    let mut out: Vec<u8> = Vec::new();
    push_tag(&mut out, 0x52, 0x49, 0x46, 0x46);
    push_le32(&mut out, data_len + 36);
    push_tag(&mut out, 0x57, 0x41, 0x56, 0x45);
    push_tag(&mut out, 0x66, 0x6d, 0x74, 0x20);
    push_le32(&mut out, 16);
    push_le16(&mut out, 1);
    push_le16(&mut out, 1);
    push_le32(&mut out, WAV_SAMPLE_RATE);
    push_le32(&mut out, WAV_SAMPLE_RATE * 2);
    push_le16(&mut out, 2);
    push_le16(&mut out, 16);
    push_tag(&mut out, 0x64, 0x61, 0x74, 0x61);
    push_le32(&mut out, data_len);
    assert(out@ =~= spec_wav_header(WAV_SAMPLE_RATE, data_len));
    assert(samples@.take(0) =~= Seq::<i16>::empty());
    let ghost header = out@;
    let mut i: usize = 0;
    while i < n
        invariant
            0 <= i <= n,
            n == samples@.len(),
            out@ == header + spec_sample_bytes(samples@.take(i as int)),
        decreases n - i,
    {
        let s: i16 = samples[i];
        push_le16(&mut out, #[verifier::truncate] (s as u16));
        proof {
            lemma_sample_bytes_snoc(samples@, i as int);
        }
        i = i + 1;
    }
    proof {
        assert(samples@.take(n as int) =~= samples@);
    }
    out
}

/// The 100 ms silent clip used to validate credentials: 1600 zero samples.
pub open spec fn spec_silent_clip() -> Seq<i16> {
    Seq::new(1600, |i: int| 0i16)
}

/// The silent clip, already encoded as a WAV container.
pub fn silent_clip_wav() -> (r: Vec<u8>)
    ensures
        r@ == spec_wav_bytes(spec_silent_clip()),
{
    let mut clip: Vec<i16> = Vec::new();
    let mut i: usize = 0;
    while i < 1600
        invariant
            0 <= i <= 1600,
            clip@.len() == i,
            forall|k: int| 0 <= k < i ==> clip@[k] == 0i16,
        decreases 1600 - i,
    {
        clip.push(0i16);
        i = i + 1;
    }
    proof {
        assert(clip@ =~= spec_silent_clip());
    }
    encode_wav_bytes(&clip)
}

/// The payload offset and size of the first chunk tagged `id`, scanning the
/// chunk list that starts at byte offset `o`; `None` if no such chunk fits.
pub open spec fn spec_find_chunk(b: Seq<u8>, o: int, id: Seq<u8>) -> Option<(int, int)>
    decreases b.len() - o,
    when 0 <= o <= b.len()
{
    if o + 8 > b.len() {
        None
    } else {
        let size = spec_u32_from_le_bytes(b.subrange(o + 4, o + 8)) as int;
        if b.subrange(o, o + 4) == id {
            if o + 8 + size <= b.len() {
                Some((o + 8, size))
            } else {
                None
            }
        } else {
            let next = o + 8 + size + (size % 2);
            if next <= b.len() {
                spec_find_chunk(b, next, id)
            } else {
                None
            }
        }
    }
}

/// Consecutive little-endian 16-bit words read back as samples.
pub open spec fn spec_parse_samples(b: Seq<u8>) -> Seq<i16>
    decreases b.len(),
{
    if b.len() < 2 {
        Seq::empty()
    } else {
        seq![spec_u16_from_le_bytes(b.take(2)) as i16] + spec_parse_samples(b.skip(2))
    }
}

/// What a WAV byte container holds, or why it is rejected.
pub enum WavParse {
    /// A well-formed mono 16-bit PCM file: its samples and sample rate.
    Parsed { samples: Seq<i16>, rate: u32 },
    /// Missing or malformed RIFF preamble, format chunk, or data chunk.
    BadContainer,
    /// The format chunk declares a channel count other than one.
    BadChannels { channels: u16 },
    /// The format chunk declares a bit depth other than sixteen.
    BadBits { bits: u16 },
}

/// The meaning of a WAV byte container.
pub open spec fn spec_parse_wav(b: Seq<u8>) -> WavParse {
    if !(b.len() >= 12 && b.subrange(0, 4) == spec_riff_tag() && b.subrange(8, 12)
        == spec_wave_tag()) {
        WavParse::BadContainer
    } else {
        match spec_find_chunk(b, 12, spec_fmt_tag()) {
            None => WavParse::BadContainer,
            Some((fo, fs)) => {
                if fs < 16 {
                    WavParse::BadContainer
                } else {
                    let format = spec_u16_from_le_bytes(b.subrange(fo, fo + 2));
                    let channels = spec_u16_from_le_bytes(b.subrange(fo + 2, fo + 4));
                    let rate = spec_u32_from_le_bytes(b.subrange(fo + 4, fo + 8));
                    let bits = spec_u16_from_le_bytes(b.subrange(fo + 14, fo + 16));
                    if format != 1 {
                        WavParse::BadContainer
                    } else if channels != 1 {
                        WavParse::BadChannels { channels }
                    } else if bits != 16 {
                        WavParse::BadBits { bits }
                    } else {
                        match spec_find_chunk(b, 12, spec_data_tag()) {
                            None => WavParse::BadContainer,
                            Some((dofs, ds)) => WavParse::Parsed {
                                samples: spec_parse_samples(
                                    b.subrange(dofs, dofs + 2 * (ds / 2)),
                                ),
                                rate,
                            },
                        }
                    }
                }
            },
        }
    }
}

/// Whether the four bytes at `o` equal the given tag.
fn tag_at(b: &[u8], o: usize, c0: u8, c1: u8, c2: u8, c3: u8) -> (r: bool)
    requires
        o + 4 <= b@.len(),
    ensures
        r == (b@.subrange(o as int, o + 4) == seq![c0, c1, c2, c3]),
{
    let r = b[o] == c0 && b[o + 1] == c1 && b[o + 2] == c2 && b[o + 3] == c3;
    proof {
        let t = b@.subrange(o as int, o + 4);
        if r {
            assert(t =~= seq![c0, c1, c2, c3]);
        } else {
            assert(t[0] == b@[o as int] && t[1] == b@[o + 1] && t[2] == b@[o + 2] && t[3] == b@[o
                + 3]);
            assert(t != seq![c0, c1, c2, c3]);
        }
    }
    r
}

fn read_le16(b: &[u8], o: usize) -> (x: u16)
    requires
        o + 2 <= b@.len(),
    ensures
        x == spec_u16_from_le_bytes(b@.subrange(o as int, o + 2)),
{
    let n: usize = b.len();
    proof {
        assert(o + 2 <= n);
    }
    u16_from_le_bytes(slice_subrange(b, o, o + 2))
}

fn read_le32(b: &[u8], o: usize) -> (x: u32)
    requires
        o + 4 <= b@.len(),
    ensures
        x == spec_u32_from_le_bytes(b@.subrange(o as int, o + 4)),
{
    let n: usize = b.len();
    proof {
        assert(o + 4 <= n);
    }
    u32_from_le_bytes(slice_subrange(b, o, o + 4))
}

/// A found chunk's payload lies inside the byte container.
proof fn lemma_find_chunk_bounds(b: Seq<u8>, o: int, id: Seq<u8>)
    requires
        0 <= o <= b.len(),
        spec_find_chunk(b, o, id) is Some,
    ensures
        ({
            let p = spec_find_chunk(b, o, id)->Some_0;
            o + 8 <= p.0 && p.1 >= 0 && p.0 + p.1 <= b.len()
        }),
    decreases b.len() - o,
{
    if o + 8 > b.len() {
    } else {
        let size = spec_u32_from_le_bytes(b.subrange(o + 4, o + 8)) as int;
        if b.subrange(o, o + 4) == id {
        } else {
            let next = o + 8 + size + (size % 2);
            if next <= b.len() {
                lemma_find_chunk_bounds(b, next, id);
            }
        }
    }
}

/// Scan the chunk list from offset `o` for the first chunk with the given tag.
fn find_chunk_from(b: &[u8], o: usize, c0: u8, c1: u8, c2: u8, c3: u8) -> (r: Option<
    (usize, u32),
>)
    requires
        o <= b@.len(),
    ensures
        match r {
            Some(p) => spec_find_chunk(b@, o as int, seq![c0, c1, c2, c3]) == Some(
                (p.0 as int, p.1 as int),
            ),
            None => spec_find_chunk(b@, o as int, seq![c0, c1, c2, c3]) is None,
        },
    decreases b@.len() - o,
{
    let len: usize = b.len();
    if len - o < 8 {
        return None;
    }
    let size: u32 = read_le32(b, o + 4);
    if tag_at(b, o, c0, c1, c2, c3) {
        let rem: usize = len - (o + 8);
        if size as u64 <= rem as u64 {
            Some((o + 8, size))
        } else {
            None
        }
    } else {
        let step: u64 = 8u64 + size as u64 + (size % 2) as u64;
        if step <= (len as u64) - (o as u64) {
            let next: usize = o + (step as usize);
            proof {
                assert(next == o + 8 + size + (size as int % 2));
            }
            find_chunk_from(b, next, c0, c1, c2, c3)
        } else {
            proof {
                assert(o + 8 + size + (size as int % 2) > len);
            }
            None
        }
    }
}

/// Extract raw PCM samples and the sample rate from WAV bytes.
///
/// Fails with a [`FormatIssue`] when the container is malformed, is not
/// single-channel, or is not 16-bit.
pub fn extract_pcm_from_wav(b: &[u8]) -> (r: Result<(Vec<i16>, u32), SttError>)
    ensures
        match spec_parse_wav(b@) {
            WavParse::Parsed { samples, rate } => (match r {
                Ok(p) => p.0@ == samples && p.1 == rate,
                Err(_) => false,
            }),
            WavParse::BadContainer => (r matches Err(e) && e == SttError::Format {
                issue: FormatIssue::Malformed,
            }),
            WavParse::BadChannels { channels } => (r matches Err(e) && e == SttError::Format {
                issue: FormatIssue::NotMono { channels },
            }),
            WavParse::BadBits { bits } => (r matches Err(e) && e == SttError::Format {
                issue: FormatIssue::NotSixteenBit { bits },
            }),
        },
{
    let len: usize = b.len();
    if len < 12 {
        return Err(SttError::Format { issue: FormatIssue::Malformed });
    }
    if !tag_at(b, 0, 0x52, 0x49, 0x46, 0x46) || !tag_at(b, 8, 0x57, 0x41, 0x56, 0x45) {
        return Err(SttError::Format { issue: FormatIssue::Malformed });
    }
    let fmt = find_chunk_from(b, 12, 0x66, 0x6d, 0x74, 0x20);
    let (fo, fs): (usize, u32) = match fmt {
        Some(p) => p,
        None => {
            return Err(SttError::Format { issue: FormatIssue::Malformed });
        },
    };
    if fs < 16 {
        return Err(SttError::Format { issue: FormatIssue::Malformed });
    }
    proof {
        lemma_find_chunk_bounds(b@, 12, spec_fmt_tag());
        assert(fo + fs <= len);
    }
    let format: u16 = read_le16(b, fo);
    let channels: u16 = read_le16(b, fo + 2);
    let rate: u32 = read_le32(b, fo + 4);
    let bits: u16 = read_le16(b, fo + 14);
    if format != 1 {
        return Err(SttError::Format { issue: FormatIssue::Malformed });
    }
    if channels != 1 {
        return Err(SttError::Format { issue: FormatIssue::NotMono { channels } });
    }
    if bits != 16 {
        return Err(SttError::Format { issue: FormatIssue::NotSixteenBit { bits } });
    }
    let data = find_chunk_from(b, 12, 0x64, 0x61, 0x74, 0x61);
    let (dofs, ds): (usize, u32) = match data {
        Some(p) => p,
        None => {
            return Err(SttError::Format { issue: FormatIssue::Malformed });
        },
    };
    proof {
        lemma_find_chunk_bounds(b@, 12, spec_data_tag());
        assert(dofs + ds <= len);
    }
    let count: usize = (ds / 2) as usize;
    let ghost payload = b@.subrange(dofs as int, dofs + 2 * (ds as int / 2));
    let mut samples: Vec<i16> = Vec::new();
    proof {
        assert(payload.skip(0) =~= payload);
        assert(samples@ + spec_parse_samples(payload) =~= spec_parse_samples(payload));
    }
    let mut k: usize = 0;
    while k < count
        invariant
            0 <= k <= count,
            count == ds as int / 2,
            len == b@.len(),
            dofs + ds <= len,
            payload == b@.subrange(dofs as int, dofs + 2 * (ds as int / 2)),
            samples@.len() == k,
            spec_parse_samples(payload) == samples@ + spec_parse_samples(
                payload.skip(2 * k as int),
            ),
        decreases count - k,
    {
        let x: u16 = read_le16(b, dofs + 2 * k);
        let s: i16 = #[verifier::truncate] (x as i16);
        proof {
            let rest = payload.skip(2 * k as int);
            assert(rest.len() >= 2);
            assert(rest.take(2) =~= b@.subrange(dofs + 2 * k, dofs + 2 * k + 2));
            assert(rest.skip(2) =~= payload.skip(2 * (k + 1)));
            assert(spec_parse_samples(rest) == seq![s] + spec_parse_samples(
                payload.skip(2 * (k + 1)),
            ));
            assert(samples@ + (seq![s] + spec_parse_samples(payload.skip(2 * (k + 1)))) =~= (
            samples@ + seq![s]) + spec_parse_samples(payload.skip(2 * (k + 1))));
        }
        samples.push(s);
        k = k + 1;
    }
    proof {
        assert(payload.skip(2 * count as int) =~= Seq::<u8>::empty());
        assert(samples@ + Seq::<i16>::empty() =~= samples@);
    }
    Ok((samples, rate))
}

proof fn lemma_sample_bytes_len(s: Seq<i16>)
    ensures
        spec_sample_bytes(s).len() == 2 * s.len(),
    decreases s.len(),
{
    lemma_auto_spec_u16_to_from_le_bytes();
    if s.len() > 0 {
        lemma_sample_bytes_len(s.drop_first());
    }
}

proof fn lemma_parse_sample_bytes(s: Seq<i16>)
    ensures
        spec_parse_samples(spec_sample_bytes(s)) == s,
    decreases s.len(),
{
    lemma_auto_spec_u16_to_from_le_bytes();
    if s.len() == 0 {
        assert(spec_parse_samples(spec_sample_bytes(s)) =~= s);
    } else {
        let x = s[0] as u16;
        let sb = spec_sample_bytes(s);
        lemma_sample_bytes_len(s.drop_first());
        assert(sb.len() >= 2);
        assert(sb.take(2) =~= spec_le16(x));
        assert(sb.skip(2) =~= spec_sample_bytes(s.drop_first()));
        let y = s[0];
        assert((x as i16) == y) by (bit_vector)
            requires
                x == y as u16,
        ;
        lemma_parse_sample_bytes(s.drop_first());
        assert(seq![s[0]] + s.drop_first() =~= s);
    }
}

proof fn lemma_header_layout(rate: u32, dlen: u32)
    ensures
        spec_wav_header(rate, dlen).len() == 44,
        spec_wav_header(rate, dlen).subrange(0, 4) == spec_riff_tag(),
        spec_wav_header(rate, dlen).subrange(8, 12) == spec_wave_tag(),
        spec_wav_header(rate, dlen).subrange(12, 16) == spec_fmt_tag(),
        spec_wav_header(rate, dlen).subrange(16, 20) == spec_le32(16),
        spec_wav_header(rate, dlen).subrange(20, 22) == spec_le16(1),
        spec_wav_header(rate, dlen).subrange(22, 24) == spec_le16(1),
        spec_wav_header(rate, dlen).subrange(24, 28) == spec_le32(rate),
        spec_wav_header(rate, dlen).subrange(34, 36) == spec_le16(16),
        spec_wav_header(rate, dlen).subrange(36, 40) == spec_data_tag(),
        spec_wav_header(rate, dlen).subrange(40, 44) == spec_le32(dlen),
{
    lemma_auto_spec_u16_to_from_le_bytes();
    lemma_auto_spec_u32_to_from_le_bytes();
    let h = spec_wav_header(rate, dlen);
    assert(h.subrange(0, 4) =~= spec_riff_tag());
    assert(h.subrange(8, 12) =~= spec_wave_tag());
    assert(h.subrange(12, 16) =~= spec_fmt_tag());
    assert(h.subrange(16, 20) =~= spec_le32(16));
    assert(h.subrange(20, 22) =~= spec_le16(1));
    assert(h.subrange(22, 24) =~= spec_le16(1));
    assert(h.subrange(24, 28) =~= spec_le32(rate));
    assert(h.subrange(34, 36) =~= spec_le16(16));
    assert(h.subrange(36, 40) =~= spec_data_tag());
    assert(h.subrange(40, 44) =~= spec_le32(dlen));
}

/// Decoding recovers exactly what the encoder wrote: the same samples at the
/// fixed 16 kHz rate.
pub proof fn lemma_wav_round_trip(samples: Seq<i16>)
    requires
        samples.len() * 2 + 36 <= u32::MAX,
    ensures
        spec_parse_wav(spec_wav_bytes(samples)) == (WavParse::Parsed {
            samples,
            rate: WAV_SAMPLE_RATE,
        }),
{
    lemma_auto_spec_u16_to_from_le_bytes();
    lemma_auto_spec_u32_to_from_le_bytes();
    let n = samples.len() as int;
    let dlen: u32 = (2 * n) as u32;
    let h = spec_wav_header(WAV_SAMPLE_RATE, dlen);
    let sb = spec_sample_bytes(samples);
    let b = spec_wav_bytes(samples);
    lemma_header_layout(WAV_SAMPLE_RATE, dlen);
    lemma_sample_bytes_len(samples);
    assert(b == h + sb);
    assert(b.len() == 44 + 2 * n);
    assert(b.subrange(0, 4) =~= h.subrange(0, 4));
    assert(b.subrange(8, 12) =~= h.subrange(8, 12));
    assert(b.subrange(12, 16) =~= h.subrange(12, 16));
    assert(b.subrange(16, 20) =~= h.subrange(16, 20));
    assert(b.subrange(20, 22) =~= h.subrange(20, 22));
    assert(b.subrange(22, 24) =~= h.subrange(22, 24));
    assert(b.subrange(24, 28) =~= h.subrange(24, 28));
    assert(b.subrange(34, 36) =~= h.subrange(34, 36));
    assert(b.subrange(36, 40) =~= h.subrange(36, 40));
    assert(b.subrange(40, 44) =~= h.subrange(40, 44));
    // The chunk scan finds the format chunk immediately at offset 12.
    assert(spec_u32_from_le_bytes(b.subrange(16, 20)) == 16);
    assert(spec_find_chunk(b, 12, spec_fmt_tag()) == Some((20int, 16int)));
    // The format fields read back as mono 16-bit PCM at the fixed rate.
    assert(spec_u16_from_le_bytes(b.subrange(20, 22)) == 1);
    assert(spec_u16_from_le_bytes(b.subrange(22, 24)) == 1);
    assert(spec_u32_from_le_bytes(b.subrange(24, 28)) == WAV_SAMPLE_RATE);
    assert(spec_u16_from_le_bytes(b.subrange(34, 36)) == 16);
    // The scan for the data chunk skips the format chunk, then matches.
    assert(spec_fmt_tag() != spec_data_tag()) by {
        assert(spec_fmt_tag()[0] != spec_data_tag()[0]);
    }
    assert(b.subrange(12, 16) != spec_data_tag());
    assert(spec_u32_from_le_bytes(b.subrange(40, 44)) == dlen);
    assert(spec_find_chunk(b, 36, spec_data_tag()) == Some((44int, dlen as int)));
    assert(spec_find_chunk(b, 12, spec_data_tag()) == Some((44int, dlen as int)));
    // The data payload is exactly the encoded sample bytes.
    assert(2 * (dlen as int / 2) == 2 * n);
    assert(b.subrange(44, 44 + 2 * n) =~= sb);
    lemma_parse_sample_bytes(samples);
}

} // verus!
