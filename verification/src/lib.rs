//! Windowed resampling of irregular time series.
//!
//! A [`Resampler`] turns a stream of timestamped samples, arriving at any
//! cadence, into a regular series with one output sample per fixed interval.
//! Samples are pushed into a buffer; [`Resampler::resample`] walks whole
//! windows from the current cursor up to a given end instant, aggregates the
//! samples of each window with the configured [`ResamplingFunction`], prunes
//! data that has aged past the retention bound, and emits one output sample
//! per window, valueless where no input contributed.
//!
//! Instants are absolute timestamps in milliseconds; window widths and sample
//! spacings are millisecond durations.

pub mod align;
pub mod clock;
pub mod function;
pub mod resampler;
pub mod sample;
pub mod value;

pub use align::epoch_align;
pub use function::CustomFunction;
pub use function::NoCustom;
pub use function::ResamplingFunction;
pub use resampler::Resampler;
pub use sample::PlainSample;
pub use sample::Sample;
pub use value::SampleValue;
pub use value::ValueOrder;
