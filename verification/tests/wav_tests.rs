use cloud_stt::errors::{FormatIssue, SttError};
use cloud_stt::resample::resample_i16;
use cloud_stt::wav::{encode_wav_bytes, extract_pcm_from_wav, silent_clip_wav};

fn hound_encode(samples: &[i16], sample_rate: u32) -> Vec<u8> {
    let spec = hound::WavSpec {
        channels: 1,
        sample_rate,
        bits_per_sample: 16,
        sample_format: hound::SampleFormat::Int,
    };
    let mut cursor = std::io::Cursor::new(Vec::new());
    {
        let mut writer = hound::WavWriter::new(&mut cursor, spec).unwrap();
        for s in samples {
            writer.write_sample(*s).unwrap();
        }
        writer.finalize().unwrap();
    }
    cursor.into_inner()
}

#[test]
fn wav_round_trip_recovers_samples() {
    let samples: Vec<i16> = vec![0, 1, -1, 32767, -32768, 12345, -12345];
    let bytes = encode_wav_bytes(&samples);
    let (decoded, rate) = extract_pcm_from_wav(&bytes).unwrap();
    assert_eq!(decoded, samples);
    assert_eq!(rate, 16000);
}

#[test]
fn wav_encoder_matches_reference_writer() {
    let samples: Vec<i16> = vec![3, -7, 2000, -32768, 32767];
    let mine = encode_wav_bytes(&samples);
    let theirs = hound_encode(&samples, 16000);
    assert_eq!(mine, theirs);
}

#[test]
fn wav_decoder_reads_reference_writer_output() {
    let samples: Vec<i16> = vec![10, 20, -30, 40];
    let bytes = hound_encode(&samples, 44100);
    let (decoded, rate) = extract_pcm_from_wav(&bytes).unwrap();
    assert_eq!(decoded, samples);
    assert_eq!(rate, 44100);
}

#[test]
fn float_samples_round_trip_within_one() {
    let floats: Vec<f32> = vec![0.0, 0.5, -0.5, 0.999, -1.0, 0.25, -0.125];
    let scaled: Vec<i16> = floats.iter().map(|s| (s * i16::MAX as f32) as i16).collect();
    let bytes = encode_wav_bytes(&scaled);
    let (decoded, rate) = extract_pcm_from_wav(&bytes).unwrap();
    assert_eq!(rate, 16000);
    assert_eq!(decoded.len(), floats.len());
    for (d, s) in decoded.iter().zip(floats.iter()) {
        let expected = (s * 32767.0).round();
        assert!((*d as f32 - expected).abs() <= 1.0);
    }
}

#[test]
fn decode_rejects_stereo() {
    let spec = hound::WavSpec {
        channels: 2,
        sample_rate: 16000,
        bits_per_sample: 16,
        sample_format: hound::SampleFormat::Int,
    };
    let mut cursor = std::io::Cursor::new(Vec::new());
    {
        let mut writer = hound::WavWriter::new(&mut cursor, spec).unwrap();
        for s in [1i16, 2, 3, 4] {
            writer.write_sample(s).unwrap();
        }
        writer.finalize().unwrap();
    }
    let bytes = cursor.into_inner();
    let r = extract_pcm_from_wav(&bytes);
    assert_eq!(r, Err(SttError::Format { issue: FormatIssue::NotMono { channels: 2 } }));
}

#[test]
fn decode_rejects_eight_bit() {
    let spec = hound::WavSpec {
        channels: 1,
        sample_rate: 16000,
        bits_per_sample: 8,
        sample_format: hound::SampleFormat::Int,
    };
    let mut cursor = std::io::Cursor::new(Vec::new());
    {
        let mut writer = hound::WavWriter::new(&mut cursor, spec).unwrap();
        for s in [1i8, 2, 3] {
            writer.write_sample(s).unwrap();
        }
        writer.finalize().unwrap();
    }
    let bytes = cursor.into_inner();
    let r = extract_pcm_from_wav(&bytes);
    assert_eq!(r, Err(SttError::Format { issue: FormatIssue::NotSixteenBit { bits: 8 } }));
}

#[test]
fn decode_rejects_garbage() {
    let r = extract_pcm_from_wav(b"this is not audio");
    assert_eq!(r, Err(SttError::Format { issue: FormatIssue::Malformed }));
}

#[test]
fn decode_skips_unknown_chunks() {
    // A container with an extra chunk between "fmt " and "data".
    let samples: Vec<i16> = vec![5, -6];
    let reference = encode_wav_bytes(&samples);
    let mut bytes: Vec<u8> = Vec::new();
    bytes.extend_from_slice(&reference[0..36]); // RIFF header + fmt chunk
    bytes.extend_from_slice(b"LIST");
    bytes.extend_from_slice(&4u32.to_le_bytes());
    bytes.extend_from_slice(b"info");
    bytes.extend_from_slice(&reference[36..]); // data chunk
    // Fix up the RIFF size field.
    let riff_size = (bytes.len() - 8) as u32;
    bytes[4..8].copy_from_slice(&riff_size.to_le_bytes());
    let (decoded, rate) = extract_pcm_from_wav(&bytes).unwrap();
    assert_eq!(decoded, samples);
    assert_eq!(rate, 16000);
}

#[test]
fn silent_clip_is_1600_zero_samples() {
    let bytes = silent_clip_wav();
    let (decoded, rate) = extract_pcm_from_wav(&bytes).unwrap();
    assert_eq!(rate, 16000);
    assert_eq!(decoded, vec![0i16; 1600]);
}

#[test]
fn resample_length_is_rounded_ratio() {
    let pcm: Vec<i16> = vec![0; 1600];
    let up = resample_i16(&pcm, 16000, 24000).unwrap();
    assert_eq!(up.len(), 2400);
    let down = resample_i16(&pcm, 16000, 8000).unwrap();
    assert_eq!(down.len(), 800);
    let pcm5: Vec<i16> = vec![0; 5];
    let odd = resample_i16(&pcm5, 16000, 24000).unwrap();
    assert_eq!(odd.len(), 8); // round(5 * 1.5) = round(7.5) rounds up
}

#[test]
fn resample_identity_keeps_samples() {
    let pcm: Vec<i16> = vec![1, -2, 3, -4];
    let same = resample_i16(&pcm, 16000, 16000).unwrap();
    assert_eq!(same, pcm);
}

#[test]
fn resample_downsamples_by_index() {
    let pcm: Vec<i16> = vec![10, 20, 30, 40];
    let half = resample_i16(&pcm, 16000, 8000).unwrap();
    assert_eq!(half, vec![10, 30]);
}

#[test]
fn resample_rejects_zero_rate() {
    let pcm: Vec<i16> = vec![1, 2, 3];
    assert_eq!(
        resample_i16(&pcm, 0, 16000),
        Err(SttError::Format { issue: FormatIssue::ZeroRate })
    );
    assert_eq!(
        resample_i16(&pcm, 16000, 0),
        Err(SttError::Format { issue: FormatIssue::ZeroRate })
    );
}

#[test]
fn empty_input_resamples_to_empty() {
    let pcm: Vec<i16> = Vec::new();
    let r = resample_i16(&pcm, 16000, 24000).unwrap();
    assert_eq!(r.len(), 0);
}
