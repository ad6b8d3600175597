//! Standalone audio backend configuration.
//!
//! Choosing stream settings is a decision over plain values: which of the
//! configurations a device advertises supports the wanted channel count,
//! sample rate and period size, preferring floating-point streams to avoid
//! conversions. That choice is verified here; enumerating devices and
//! opening streams is I/O and stays with the host shell, which hands the
//! advertised ranges in and takes the negotiated settings back.

use vstd::prelude::*;

verus! {

/// The sample encodings a device may offer for a stream.
#[derive(Clone, Copy, Debug, PartialEq, Eq, Structural)]
pub enum SampleFormat {
    I16,
    U16,
    F32,
}

/// One supported configuration range a device advertises: a channel count,
/// a sample-rate span, a buffer-size span (if the device reports one), and
/// a sample format.
#[derive(Clone, Copy, Debug, PartialEq, Eq, Structural)]
pub struct ConfigRange {
    pub channels: u16,
    pub min_sample_rate: u32,
    pub max_sample_rate: u32,
    pub buffer_size_known: bool,
    pub min_buffer_size: u32,
    pub max_buffer_size: u32,
    pub sample_format: SampleFormat,
}

/// Negotiated settings for one stream.
#[derive(Clone, Copy, Debug, PartialEq, Eq, Structural)]
pub struct StreamConfig {
    pub channels: u16,
    pub sample_rate: u32,
    pub buffer_size: u32,
    pub sample_format: SampleFormat,
}

/// What the wrapper asks of its streams.
#[derive(Clone, Copy, Debug, PartialEq, Eq, Structural)]
pub struct WrapperConfig {
    pub sample_rate: u32,
    pub period_size: u32,
}

/// Why the backend could not be brought up.
#[derive(Clone, Copy, Debug, PartialEq, Eq, Structural)]
pub enum BackendError {
    /// The input device supports no configuration with the wanted channel
    /// count, sample rate and period size.
    NoMatchingInputConfig,
    /// The output device supports no such configuration.
    NoMatchingOutputConfig,
}

/// Whether one advertised range covers the wanted stream settings.
pub open spec fn range_matches(c: ConfigRange, channels: u16, rate: u32, period: u32) -> bool {
    &&& c.buffer_size_known
    &&& c.channels == channels
    &&& c.min_sample_rate <= rate <= c.max_sample_rate
    &&& c.min_buffer_size <= period <= c.max_buffer_size
}

/// The first matching range at or after position i; optionally only
/// floating-point ones.
pub open spec fn first_match_from(
    ranges: Seq<ConfigRange>,
    channels: u16,
    rate: u32,
    period: u32,
    i: int,
    f32_only: bool,
) -> Option<int>
    decreases ranges.len() - i,
{
    if i < 0 || i >= ranges.len() {
        Option::None
    } else if range_matches(ranges[i], channels, rate, period) && (!f32_only
        || ranges[i].sample_format == SampleFormat::F32) {
        Option::Some(i)
    } else {
        first_match_from(ranges, channels, rate, period, i + 1, f32_only)
    }
}

/// The index of the range the backend picks: the first floating-point
/// match if one exists, otherwise the first match of any format.
pub open spec fn selected_index(
    ranges: Seq<ConfigRange>,
    channels: u16,
    rate: u32,
    period: u32,
) -> Option<int> {
    match first_match_from(ranges, channels, rate, period, 0, true) {
        Option::Some(i) => Option::Some(i),
        Option::None => first_match_from(ranges, channels, rate, period, 0, false),
    }
}

/// The stream settings derived from a chosen range: the requested rate and
/// period — both already checked against the range — with the range's
/// channel count and sample format.
pub open spec fn stream_of(c: ConfigRange, rate: u32, period: u32) -> StreamConfig {
    StreamConfig {
        channels: c.channels,
        sample_rate: rate,
        buffer_size: period,
        sample_format: c.sample_format,
    }
}

/// Scan for the first matching range, optionally floating-point only.
fn find_match(
    ranges: &Vec<ConfigRange>,
    channels: u16,
    rate: u32,
    period: u32,
    f32_only: bool,
) -> (r: Option<usize>)
    ensures
        match r {
            Option::Some(i) => first_match_from(ranges@, channels, rate, period, 0, f32_only)
                == Option::Some(i as int) && i < ranges@.len(),
            Option::None => first_match_from(ranges@, channels, rate, period, 0, f32_only)
                matches Option::None,
        },
{
    let mut k: usize = 0;
    while k < ranges.len()
        invariant
            k <= ranges@.len(),
            first_match_from(ranges@, channels, rate, period, 0, f32_only) == first_match_from(
                ranges@,
                channels,
                rate,
                period,
                k as int,
                f32_only,
            ),
        decreases ranges@.len() - k,
    {
        let c = ranges[k];
        let is_match: bool = c.buffer_size_known && c.channels == channels
            && c.min_sample_rate <= rate && rate <= c.max_sample_rate
            && c.min_buffer_size <= period && period <= c.max_buffer_size;
        let wanted: bool = is_match && (!f32_only || matches!(c.sample_format, SampleFormat::F32));
        if wanted {
            return Option::Some(k);
        }
        k += 1;
    }
    Option::None
}

/// Pick the range the backend uses for one stream.
fn select_range(ranges: &Vec<ConfigRange>, channels: u16, rate: u32, period: u32) -> (r: Option<
    ConfigRange,
>)
    ensures
        match selected_index(ranges@, channels, rate, period) {
            Option::Some(i) => r == Option::Some(ranges@[i]),
            Option::None => r matches Option::None,
        },
{
    match find_match(ranges, channels, rate, period, true) {
        Option::Some(i) => Option::Some(ranges[i]),
        Option::None => {
            match find_match(ranges, channels, rate, period, false) {
                Option::Some(i) => Option::Some(ranges[i]),
                Option::None => Option::None,
            }
        },
    }
}

/// The negotiated backend for the outcome `Cpal::new` must produce.
pub open spec fn new_spec(
    config: WrapperConfig,
    num_input_channels: u16,
    input_ranges: Option<Seq<ConfigRange>>,
    num_output_channels: u16,
    output_ranges: Seq<ConfigRange>,
) -> Result<Cpal, BackendError> {
    let rate = config.sample_rate;
    let period = config.period_size;
    let input = match input_ranges {
        Option::Some(ranges) => match selected_index(ranges, num_input_channels, rate, period) {
            Option::Some(i) => Option::Some(Option::Some(stream_of(ranges[i], rate, period))),
            Option::None => Option::None,
        },
        Option::None => Option::Some(Option::None),
    };
    match input {
        Option::None => Result::Err(BackendError::NoMatchingInputConfig),
        Option::Some(input_stream) => match selected_index(
            output_ranges,
            num_output_channels,
            rate,
            period,
        ) {
            Option::Some(i) => Result::Ok(
                Cpal {
                    config,
                    input: input_stream,
                    output: stream_of(output_ranges[i], rate, period),
                },
            ),
            Option::None => Result::Err(BackendError::NoMatchingOutputConfig),
        },
    }
}

/// The negotiated settings of the standalone audio backend: what the
/// wrapper asked for, the chosen input stream if an input device was
/// requested, and the chosen output stream.
#[derive(Clone, Copy, Debug, PartialEq, Eq, Structural)]
pub struct Cpal {
    pub config: WrapperConfig,
    pub input: Option<StreamConfig>,
    pub output: StreamConfig,
}

impl Cpal {
    /// Negotiate stream settings against the configuration ranges the
    /// chosen devices advertise. An input is negotiated only when input
    /// ranges are handed in — no input device is connected unless the user
    /// asks for one, to avoid feedback loops. Fails with the input error
    /// before looking at the output, as the devices are opened in that
    /// order.
    pub fn new(
        config: WrapperConfig,
        num_input_channels: u16,
        input_configs: Option<Vec<ConfigRange>>,
        num_output_channels: u16,
        output_configs: Vec<ConfigRange>,
    ) -> (r: Result<Cpal, BackendError>)
        ensures
            r == new_spec(
                config,
                num_input_channels,
                match input_configs {
                    Option::Some(v) => Option::Some(v@),
                    Option::None => Option::None::<Seq<ConfigRange>>,
                },
                num_output_channels,
                output_configs@,
            ),
    {
        let input: Option<StreamConfig> = match &input_configs {
            Option::Some(ranges) => {
                match select_range(
                    ranges,
                    num_input_channels,
                    config.sample_rate,
                    config.period_size,
                ) {
                    Option::Some(c) => Option::Some(
                        StreamConfig {
                            channels: c.channels,
                            sample_rate: config.sample_rate,
                            buffer_size: config.period_size,
                            sample_format: c.sample_format,
                        },
                    ),
                    Option::None => {
                        return Result::Err(BackendError::NoMatchingInputConfig);
                    },
                }
            },
            Option::None => Option::None,
        };
        match select_range(
            &output_configs,
            num_output_channels,
            config.sample_rate,
            config.period_size,
        ) {
            Option::Some(c) => Result::Ok(
                Cpal {
                    config,
                    input,
                    output: StreamConfig {
                        channels: c.channels,
                        sample_rate: config.sample_rate,
                        buffer_size: config.period_size,
                        sample_format: c.sample_format,
                    },
                },
            ),
            Option::None => Result::Err(BackendError::NoMatchingOutputConfig),
        }
    }
}

} // verus!
