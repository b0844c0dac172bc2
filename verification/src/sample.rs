//! A sample couples an instant with an optional value. The engine is generic
//! over the concrete sample representation: anything that can report its
//! timestamp and value, and be built from the two, can flow through it.

use crate::value::SampleValue;
use vstd::prelude::*;

verus! {

/// One observation of a time series: a timestamp in milliseconds and a value
/// that may be absent. Absence records that an observation was taken but its
/// value was unavailable, which is different from no observation at all.
pub trait Sample: Sized {
    /// The value type carried by this sample representation.
    type Value: SampleValue;

    /// The instant this sample was taken, in milliseconds. The default
    /// stands for implementations whose executable methods nothing verified
    /// relies on; every implementation in this crate overrides it.
    open spec fn timestamp_spec(&self) -> i64 {
        vstd::pervasive::arbitrary()
    }

    /// The value observed, where one was available.
    open spec fn value_spec(&self) -> Option<Self::Value> {
        vstd::pervasive::arbitrary()
    }

    fn new(timestamp: i64, value: Option<Self::Value>) -> (s: Self)
        ensures
            s.timestamp_spec() == timestamp,
            s.value_spec() == value,
    ;

    fn timestamp(&self) -> (t: i64)
        ensures
            t == self.timestamp_spec(),
    ;

    fn value(&self) -> (v: Option<Self::Value>)
        ensures
            v == self.value_spec(),
    ;

    fn dup(&self) -> (s: Self)
        ensures
            s == *self,
    ;
}

/// A ready-made sample over `i64` values.
#[derive(Clone, Copy, Debug, PartialEq, Eq, Structural)]
pub struct PlainSample {
    pub timestamp: i64,
    pub value: Option<i64>,
}

impl Sample for PlainSample {
    type Value = i64;

    open spec fn timestamp_spec(&self) -> i64 {
        self.timestamp
    }

    open spec fn value_spec(&self) -> Option<i64> {
        self.value
    }

    fn new(timestamp: i64, value: Option<i64>) -> (s: Self) {
        PlainSample { timestamp, value }
    }

    fn timestamp(&self) -> (t: i64) {
        self.timestamp
    }

    fn value(&self) -> (v: Option<i64>) {
        self.value
    }

    fn dup(&self) -> (s: Self) {
        *self
    }
}

} // verus!
