//! Tests of the standalone backend's stream negotiation.

use crossover::backend::{
    BackendError, ConfigRange, Cpal, SampleFormat, WrapperConfig,
};

fn range(channels: u16, format: SampleFormat) -> ConfigRange {
    ConfigRange {
        channels,
        min_sample_rate: 8_000,
        max_sample_rate: 192_000,
        buffer_size_known: true,
        min_buffer_size: 16,
        max_buffer_size: 8_192,
        sample_format: format,
    }
}

fn config() -> WrapperConfig {
    WrapperConfig { sample_rate: 48_000, period_size: 512 }
}

#[test]
fn backend_prefers_floating_point_output() {
    let ranges = vec![
        range(2, SampleFormat::I16),
        range(2, SampleFormat::F32),
        range(2, SampleFormat::U16),
    ];
    let backend = Cpal::new(config(), 0, None, 2, ranges).unwrap();
    assert_eq!(backend.output.sample_format, SampleFormat::F32);
    assert_eq!(backend.output.channels, 2);
    assert_eq!(backend.output.sample_rate, 48_000);
    assert_eq!(backend.output.buffer_size, 512);
    assert_eq!(backend.input, None);
}

#[test]
fn backend_falls_back_to_first_integer_match() {
    let ranges = vec![range(2, SampleFormat::U16), range(2, SampleFormat::I16)];
    let backend = Cpal::new(config(), 0, None, 2, ranges).unwrap();
    assert_eq!(backend.output.sample_format, SampleFormat::U16);
}

#[test]
fn backend_skips_wrong_channel_counts() {
    let ranges = vec![range(1, SampleFormat::F32), range(2, SampleFormat::I16)];
    let backend = Cpal::new(config(), 0, None, 2, ranges).unwrap();
    assert_eq!(backend.output.sample_format, SampleFormat::I16);
}

#[test]
fn backend_rejects_unreported_buffer_sizes() {
    let mut r = range(2, SampleFormat::F32);
    r.buffer_size_known = false;
    let err = Cpal::new(config(), 0, None, 2, vec![r]).unwrap_err();
    assert_eq!(err, BackendError::NoMatchingOutputConfig);
}

#[test]
fn backend_rejects_out_of_range_sample_rate() {
    let mut r = range(2, SampleFormat::F32);
    r.max_sample_rate = 44_100;
    let err = Cpal::new(config(), 0, None, 2, vec![r]).unwrap_err();
    assert_eq!(err, BackendError::NoMatchingOutputConfig);
}

#[test]
fn backend_rejects_out_of_range_period() {
    let mut r = range(2, SampleFormat::F32);
    r.max_buffer_size = 256;
    let err = Cpal::new(config(), 0, None, 2, vec![r]).unwrap_err();
    assert_eq!(err, BackendError::NoMatchingOutputConfig);
}

#[test]
fn backend_negotiates_requested_input() {
    let backend = Cpal::new(
        config(),
        2,
        Some(vec![range(2, SampleFormat::I16), range(2, SampleFormat::F32)]),
        2,
        vec![range(2, SampleFormat::F32)],
    )
    .unwrap();
    let input = backend.input.unwrap();
    assert_eq!(input.sample_format, SampleFormat::F32);
    assert_eq!(input.buffer_size, 512);
}

#[test]
fn backend_reports_input_failure_before_output_failure() {
    // Both streams are impossible; the input is opened first, so its
    // error wins.
    let err = Cpal::new(
        config(),
        2,
        Some(vec![range(1, SampleFormat::F32)]),
        2,
        vec![range(1, SampleFormat::F32)],
    )
    .unwrap_err();
    assert_eq!(err, BackendError::NoMatchingInputConfig);
}
