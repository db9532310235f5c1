use dualscribe::pipeline::{rms_level, AudioChunk};
use dualscribe::resampler::AudioResampler;
use dualscribe::sample::{encode_linear16, sample_from_i16, to_linear16};

/// Fixed-point value of a float amplitude, in units of 1/65536.
fn fixed(x: f32) -> i32 {
    (x * 65536.0) as i32
}

fn fixed_vec(xs: &[f32]) -> Vec<i32> {
    xs.iter().map(|&x| fixed(x)).collect()
}

#[test]
fn test_resampler_downsample_48k_to_16k() {
    let mut resampler = AudioResampler::new(48000, 16000, 1).unwrap();
    // 480 samples at 48kHz = 10ms of audio
    let input: Vec<f32> = (0..480).map(|i| (i as f32 / 480.0).sin()).collect();
    let output = resampler.process(&fixed_vec(&input)).unwrap();
    // 10ms at 16kHz = ~160 samples
    assert!(
        output.len() >= 140 && output.len() <= 180,
        "Expected ~160 samples, got {}",
        output.len()
    );
}

#[test]
fn test_resampler_passthrough_16k() {
    let mut resampler = AudioResampler::new(16000, 16000, 1).unwrap();
    let input: Vec<f32> = (0..160).map(|i| (i as f32 / 160.0).sin()).collect();
    let output = resampler.process(&fixed_vec(&input)).unwrap();
    assert_eq!(output.len(), input.len());
}

#[test]
fn test_resampler_stereo_to_mono() {
    let mut resampler = AudioResampler::new(48000, 16000, 2).unwrap();
    // 960 samples = 480 stereo frames at 48kHz = 10ms
    let input: Vec<f32> = (0..960).map(|i| (i as f32 / 960.0).sin()).collect();
    let output = resampler.process(&fixed_vec(&input)).unwrap();
    // Output should be mono ~160 samples
    assert!(
        output.len() >= 140 && output.len() <= 180,
        "Expected ~160 mono samples, got {}",
        output.len()
    );
}

#[test]
fn test_to_linear16() {
    let samples = vec![0.0f32, 0.5, -0.5, 1.0, -1.0];
    let linear16 = to_linear16(&fixed_vec(&samples));
    assert_eq!(linear16[0], 0i16);
    assert_eq!(linear16[1], 16383);
    assert_eq!(linear16[2], -16384);
    assert_eq!(linear16[3], 32767);
    assert_eq!(linear16[4], -32768);
}

#[test]
fn test_to_linear16_clamps_out_of_range() {
    assert_eq!(encode_linear16(fixed(2.0)), 32767);
    assert_eq!(encode_linear16(fixed(-2.0)), -32768);
}

#[test]
fn test_passthrough_returns_input_exactly() {
    let mut resampler = AudioResampler::new(16000, 16000, 1).unwrap();
    let input: Vec<i32> = vec![0, 100, -100, 65536, -65536, 12345];
    let output = resampler.process(&input).unwrap();
    assert_eq!(output, input);
}

#[test]
fn test_stereo_downmix_averages_frames() {
    // equal rates but two channels: the stage downmixes and, because it
    // is not a pure passthrough, feeds 480-sample chunks to the
    // converter; a full chunk at ratio one comes back sample for sample
    let mut resampler = AudioResampler::new(16000, 16000, 2).unwrap();
    let mut input: Vec<i32> = Vec::new();
    for _ in 0..480 {
        input.push(100);
        input.push(300);
    }
    let output = resampler.process(&input).unwrap();
    assert_eq!(output.len(), 480);
    assert!(output.iter().all(|&v| v == 200));
}

#[test]
fn test_short_chunk_is_dropped() {
    // fewer than 480 mono samples: nothing to convert yet
    let mut resampler = AudioResampler::new(48000, 16000, 1).unwrap();
    let input: Vec<i32> = vec![1000; 479];
    let output = resampler.process(&input).unwrap();
    assert!(output.is_empty());
}

#[test]
fn test_resampler_rejects_zero_rate() {
    let err = match AudioResampler::new(0, 16000, 1) {
        Ok(_) => panic!("expected an error"),
        Err(e) => e,
    };
    assert_eq!(err, "Failed to create resampler: invalid configuration");
    assert!(AudioResampler::new(16000, 0, 1).is_err());
    assert!(AudioResampler::new(16000, 16000, 0).is_err());
}

#[test]
fn test_sample_from_i16_scales_by_signed_max() {
    assert_eq!(sample_from_i16(0), 0);
    assert_eq!(sample_from_i16(32767), 65536);
    // -32768 / 32767 lies just beyond full scale, as in float capture
    assert_eq!(sample_from_i16(-32768), -65538);
    assert_eq!(sample_from_i16(16384), 32769); // 16384 * 65536 / 32767
}

#[test]
fn test_rms_level_of_silence_and_full_scale() {
    assert_eq!(rms_level(&vec![]), 0);
    assert_eq!(rms_level(&vec![0; 100]), 0);
    // constant full-scale signal: the root mean square is full scale
    assert_eq!(rms_level(&vec![65536; 50]), 65536);
    // constant half-scale signal
    assert_eq!(rms_level(&vec![32768; 50]), 32768);
    // loud beyond full scale is capped at full scale
    assert_eq!(rms_level(&vec![262144; 10]), 65536);
}

#[test]
fn test_pipeline_step_levels_and_encodes() {
    let mut resampler = AudioResampler::new(16000, 16000, 1).unwrap();
    let chunk = AudioChunk {
        samples: vec![32768; 320],
        sample_rate: 16000,
        channels: 1,
    };
    let (level, pcm) = dualscribe::pipeline::pipeline_step(&mut resampler, &chunk);
    assert_eq!(level, 32768);
    assert_eq!(pcm.len(), 320);
    // half scale encodes as 32768 * 32767 / 65536 = 16383
    assert!(pcm.iter().all(|&v| v == 16383));
}
