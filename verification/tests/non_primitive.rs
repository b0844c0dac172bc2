//! The engine stays generic: a value type that is no number at all, only a
//! bag of integers with its own addition and division, flows through the
//! same aggregation strategies.

use resampling::{Resampler, ResamplingFunction, Sample, SampleValue, ValueOrder};

#[derive(Debug, PartialEq, Eq, Clone, Default)]
struct NonPrimitive {
    value: Vec<i32>,
}

impl SampleValue for NonPrimitive {
    fn add(&self, other: &Self) -> Self {
        let mut joined = self.value.clone();
        joined.extend(other.value.iter().copied());
        Self { value: joined }
    }

    fn div(&self, _other: &Self) -> Self {
        Self { value: vec![] }
    }

    fn try_compare(&self, other: &Self) -> Option<ValueOrder> {
        self.value.partial_cmp(&other.value).map(|o| match o {
            std::cmp::Ordering::Less => ValueOrder::Less,
            std::cmp::Ordering::Equal => ValueOrder::Equal,
            std::cmp::Ordering::Greater => ValueOrder::Greater,
        })
    }

    fn from_count(n: usize) -> Self {
        Self { value: vec![n as i32] }
    }

    fn default_value() -> Self {
        Self::default()
    }

    fn dup(&self) -> Self {
        self.clone()
    }
}

#[derive(Debug, PartialEq, Eq, Clone, Default)]
struct NonPrimitiveSample {
    timestamp: i64,
    value: Option<NonPrimitive>,
}

impl Sample for NonPrimitiveSample {
    type Value = NonPrimitive;

    fn new(timestamp: i64, value: Option<NonPrimitive>) -> Self {
        Self { timestamp, value }
    }

    fn timestamp(&self) -> i64 {
        self.timestamp
    }

    fn value(&self) -> Option<NonPrimitive> {
        self.value.clone()
    }

    fn dup(&self) -> Self {
        self.clone()
    }
}

const SECOND: i64 = 1000;

fn bag(seconds: i64, entries: Vec<i32>) -> NonPrimitiveSample {
    NonPrimitiveSample::new(seconds * SECOND, Some(NonPrimitive { value: entries }))
}

#[test]
fn test_resampling_non_primitive_average() {
    let start: i64 = 0;
    let mut resampler: Resampler<NonPrimitiveSample> = Resampler::new(
        5 * SECOND,
        ResamplingFunction::Average,
        1,
        start,
        false,
    );
    let data = vec![
        bag(1, vec![1]),
        bag(2, vec![2]),
        bag(3, vec![3]),
        bag(4, vec![4]),
        bag(5, vec![5]),
        bag(6, vec![6]),
        bag(7, vec![7]),
        bag(8, vec![8]),
        bag(9, vec![9]),
        bag(10, vec![10]),
    ];

    resampler.extend(data);

    let resampled = resampler.resample(start + 10 * SECOND);

    let expected = vec![bag(5, vec![]), bag(10, vec![])];
    assert_eq!(resampled, expected);
}

#[test]
fn test_resampling_non_primitive_sum() {
    let start: i64 = 0;
    let mut resampler: Resampler<NonPrimitiveSample> = Resampler::new(
        5 * SECOND,
        ResamplingFunction::Sum,
        1,
        start,
        false,
    );
    let data = vec![
        bag(1, vec![1]),
        bag(2, vec![2]),
        bag(3, vec![3]),
        bag(4, vec![4]),
        bag(5, vec![5]),
        bag(6, vec![6]),
        bag(7, vec![7]),
        bag(8, vec![8]),
        bag(9, vec![9]),
        bag(10, vec![10]),
    ];

    resampler.extend(data);

    let resampled = resampler.resample(start + 10 * SECOND);

    let expected = vec![bag(5, vec![1, 2, 3, 4, 5]), bag(10, vec![6, 7, 8, 9, 10])];
    assert_eq!(resampled, expected);
}
