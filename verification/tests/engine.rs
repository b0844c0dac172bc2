//! Tests of the engine over the crate's own integer sample type, of the
//! alignment function, and of the edge cases the window rules single out.

use resampling::{
    epoch_align, PlainSample, Resampler, ResamplingFunction, Sample, SampleValue, ValueOrder,
};

fn at(seconds: i64, value: i64) -> PlainSample {
    PlainSample { timestamp: seconds * 1000, value: Some(value) }
}

fn gap(seconds: i64) -> PlainSample {
    PlainSample { timestamp: seconds * 1000, value: None }
}

#[test]
fn integer_average_over_two_windows() {
    let mut resampler: Resampler<PlainSample> =
        Resampler::new(5000, ResamplingFunction::Average, 1, 0, false);
    resampler.extend(vec![
        at(1, 1),
        at(2, 2),
        at(3, 3),
        at(4, 4),
        at(5, 5),
        at(6, 6),
        at(7, 7),
        at(8, 8),
        at(9, 9),
        at(10, 10),
    ]);
    let out = resampler.resample(10000);
    assert_eq!(out, vec![at(5, 3), at(10, 8)]);
}

#[test]
fn window_count_rounds_partial_interval_up() {
    // A pass over seven seconds with five-second windows starts a second
    // window: the loop runs while the cursor is below the end.
    let mut resampler: Resampler<PlainSample> =
        Resampler::new(5000, ResamplingFunction::Sum, 1, 0, false);
    resampler.push(at(1, 4));
    let out = resampler.resample(7000);
    assert_eq!(out, vec![at(5, 4), gap(10)]);
}

#[test]
fn no_op_when_end_not_ahead() {
    let mut resampler: Resampler<PlainSample> =
        Resampler::new(5000, ResamplingFunction::Sum, 1, 0, false);
    resampler.push(at(1, 4));
    let out = resampler.resample(0);
    assert_eq!(out, vec![]);
    assert_eq!(resampler.buffer().len(), 1);
    let out2 = resampler.resample(-5000);
    assert_eq!(out2, vec![]);
}

#[test]
fn cursor_advances_across_calls() {
    let mut resampler: Resampler<PlainSample> =
        Resampler::new(5000, ResamplingFunction::Sum, 1, 0, false);
    resampler.extend(vec![at(1, 1), at(6, 2)]);
    assert_eq!(resampler.resample(5000), vec![at(5, 1)]);
    assert_eq!(resampler.resample(10000), vec![at(10, 2)]);
    assert_eq!(resampler.resample(10000), vec![]);
}

#[test]
fn start_is_aligned_down_at_construction() {
    // A start within an interval snaps to the boundary below it, so window
    // edges do not depend on when the engine was built.
    let mut resampler: Resampler<PlainSample> =
        Resampler::new(5000, ResamplingFunction::Sum, 1, 7000, false);
    resampler.push(at(6, 3));
    let out = resampler.resample(10000);
    assert_eq!(out, vec![at(10, 3)]);
}

#[test]
fn epoch_alignment_on_negative_instants() {
    // Alignment rounds toward minus infinity, not toward zero.
    assert_eq!(epoch_align(5000, -3000, None), -5000);
    assert_eq!(epoch_align(5000, -3000, Some(-1000)), -6000);
    assert_eq!(epoch_align(5000, -5000, None), -5000);
}

#[test]
fn epoch_alignment_is_idempotent_on_samples() {
    for t in [-13_000, -1, 0, 1, 2_499, 12_500, 123_456_789] {
        for r in [0, -700, 1_300] {
            let once = epoch_align(700, t, Some(r));
            assert_eq!(epoch_align(700, once, Some(r)), once);
        }
    }
}

#[test]
fn count_reports_zero_on_empty_windows() {
    let mut resampler: Resampler<PlainSample> =
        Resampler::new(5000, ResamplingFunction::Count, 1, 0, false);
    let out = resampler.resample(10000);
    assert_eq!(out, vec![at(5, 0), at(10, 0)]);
}

#[test]
fn zero_retention_blanks_every_function() {
    for f in [
        ResamplingFunction::Average,
        ResamplingFunction::Sum,
        ResamplingFunction::Max,
        ResamplingFunction::Min,
        ResamplingFunction::First,
        ResamplingFunction::Last,
        ResamplingFunction::Coalesce,
    ] {
        let mut resampler: Resampler<PlainSample> = Resampler::new(5000, f, 0, 0, false);
        resampler.extend(vec![at(1, 1), at(2, 2), at(6, 3)]);
        let out = resampler.resample(10000);
        assert_eq!(out, vec![gap(5), gap(10)]);
    }
}

#[test]
fn raising_retention_never_lowers_counts() {
    let data = vec![at(1, 1), at(2, 2), at(4, 4), at(5, 5), at(17, 6), at(20, 10)];
    let mut counts: Vec<Vec<PlainSample>> = Vec::new();
    for age in [0, 1, 2, 3] {
        let mut resampler: Resampler<PlainSample> =
            Resampler::new(5000, ResamplingFunction::Count, age, 0, false);
        resampler.extend(data.clone());
        counts.push(resampler.resample(20000));
    }
    for narrow_wide in counts.windows(2) {
        for (narrow, wide) in narrow_wide[0].iter().zip(narrow_wide[1].iter()) {
            assert!(narrow.value.unwrap() <= wide.value.unwrap());
        }
    }
}

#[test]
fn average_equals_sum_divided_by_count() {
    let data = vec![at(1, 7), gap(2), at(3, 11), at(4, 3), at(6, 9), gap(7)];
    let run = |f: ResamplingFunction| {
        let mut resampler: Resampler<PlainSample> = Resampler::new(5000, f, 1, 0, false);
        resampler.extend(data.clone());
        resampler.resample(10000)
    };
    let averages = run(ResamplingFunction::Average);
    let sums = run(ResamplingFunction::Sum);
    let counts = run(ResamplingFunction::Count);
    for k in 0..averages.len() {
        let count = counts[k].value.unwrap();
        if count > 0 {
            let sum = sums[k].value.unwrap();
            assert_eq!(
                averages[k].value.unwrap(),
                <i64 as SampleValue>::div(&sum, &count)
            );
        } else {
            assert_eq!(sums[k].value, None);
            assert_eq!(averages[k].value, None);
        }
    }
}

#[test]
fn left_aligned_labels_and_edges() {
    // Left-aligned: the emitted timestamp is the window's start and a sample
    // at exactly the upper edge belongs to the next window.
    let mut resampler: Resampler<PlainSample> =
        Resampler::new(5000, ResamplingFunction::Sum, 1, 0, true);
    resampler.extend(vec![at(0, 1), at(4, 2), at(5, 4)]);
    let out = resampler.resample(10000);
    assert_eq!(out, vec![at(0, 3), at(5, 4)]);
}

#[test]
fn right_aligned_includes_upper_edge() {
    // Right-aligned: a sample at exactly the upper edge counts into the
    // current window, while one at the lower edge has already aged out of
    // it under a one-interval retention bound.
    let mut resampler: Resampler<PlainSample> =
        Resampler::new(5000, ResamplingFunction::Sum, 1, 0, false);
    resampler.extend(vec![at(0, 1), at(5, 2), at(10, 4)]);
    let out = resampler.resample(10000);
    assert_eq!(out, vec![at(5, 2), at(10, 4)]);
}

#[test]
fn first_and_last_keep_absent_values() {
    let mut resampler: Resampler<PlainSample> =
        Resampler::new(5000, ResamplingFunction::First, 1, 0, false);
    resampler.extend(vec![gap(1), at(2, 9)]);
    assert_eq!(resampler.resample(5000), vec![gap(5)]);

    let mut resampler: Resampler<PlainSample> =
        Resampler::new(5000, ResamplingFunction::Last, 1, 0, false);
    resampler.extend(vec![at(1, 9), gap(2)]);
    assert_eq!(resampler.resample(5000), vec![gap(5)]);
}

#[test]
fn integer_division_in_average_truncates() {
    let mut resampler: Resampler<PlainSample> =
        Resampler::new(5000, ResamplingFunction::Average, 1, 0, false);
    resampler.extend(vec![at(1, 1), at(2, 2)]);
    // (1 + 2) divided by 2 under Euclidean division.
    assert_eq!(resampler.resample(5000), vec![at(5, 1)]);
}

#[test]
fn integer_value_operations() {
    let add = <i64 as SampleValue>::add;
    let div = <i64 as SampleValue>::div;
    assert_eq!(add(&7, &5), 12);
    assert_eq!(add(&i64::MAX, &1), i64::MAX);
    assert_eq!(add(&i64::MIN, &-1), i64::MIN);
    assert_eq!(div(&7, &2), 3);
    assert_eq!(div(&-7, &2), -4);
    assert_eq!(div(&7, &0), 0);
    assert_eq!(div(&i64::MIN, &-1), i64::MAX);
    assert_eq!(1i64.try_compare(&2), Some(ValueOrder::Less));
    assert_eq!(2i64.try_compare(&2), Some(ValueOrder::Equal));
    assert_eq!(3i64.try_compare(&2), Some(ValueOrder::Greater));
    assert_eq!(i64::from_count(41), 41);
    assert_eq!(i64::default_value(), 0);
}

#[test]
fn plain_sample_roundtrip() {
    let s = PlainSample::new(1234, Some(5));
    assert_eq!(s.timestamp(), 1234);
    assert_eq!(s.value(), Some(5));
    assert_eq!(s.dup(), s);
}

#[test]
fn push_and_buffer_keep_arrival_order() {
    let mut resampler: Resampler<PlainSample> =
        Resampler::new(5000, ResamplingFunction::Sum, 1, 0, false);
    resampler.push(at(3, 30));
    resampler.push(at(1, 10));
    assert_eq!(resampler.buffer(), &vec![at(3, 30), at(1, 10)]);
}

#[test]
fn buffer_is_pruned_after_resampling() {
    let mut resampler: Resampler<PlainSample> =
        Resampler::new(5000, ResamplingFunction::Sum, 1, 0, false);
    resampler.extend(vec![at(1, 1), at(9, 2), at(12, 3)]);
    let _ = resampler.resample(10000);
    // Retention keeps only samples newer than the end minus one interval.
    assert_eq!(resampler.buffer(), &vec![at(9, 2), at(12, 3)]);
}

#[test]
fn resample_now_emits_since_epoch_start() {
    // The wall clock lies far past the epoch, so a pass up to now from a
    // cursor at the epoch emits at least one window.
    let mut resampler: Resampler<PlainSample> = Resampler::new(
        100_000_000_000_000,
        ResamplingFunction::Count,
        1,
        0,
        false,
    );
    let out = resampler.resample_now();
    assert!(!out.is_empty());
}
