//! The numeric capabilities a value type must offer so that windows of samples
//! can be aggregated: addition for sums, division for averages, a partial
//! comparison for extrema, construction from a sample count, and a default
//! value that doubles as the reference point when two values cannot be
//! ordered.

use vstd::prelude::*;

verus! {

/// Outcome of an ordered comparison between two aggregation values.
#[derive(Clone, Copy, Debug, PartialEq, Eq, Structural)]
pub enum ValueOrder {
    Less,
    Equal,
    Greater,
}

/// What the engine asks of a value type. Every executable method is pinned to
/// a specification function of the same implementation, so that contracts on
/// the engine can speak about sums, averages and extrema of any value type.
pub trait SampleValue: Sized {
    /// The value obtained by adding `other` to `self`. The default stands
    /// for implementations whose executable methods nothing verified relies
    /// on; every implementation in this crate overrides it.
    open spec fn add_spec(self, other: Self) -> Self {
        vstd::pervasive::arbitrary()
    }

    /// The value obtained by dividing `self` by `other`.
    open spec fn div_spec(self, other: Self) -> Self {
        vstd::pervasive::arbitrary()
    }

    /// The partial comparison of `self` with `other`; `None` where the two
    /// values cannot be ordered.
    open spec fn compare_spec(self, other: Self) -> Option<ValueOrder> {
        vstd::pervasive::arbitrary()
    }

    /// The value that stands for a count of `n` samples.
    open spec fn from_count_spec(n: nat) -> Self {
        vstd::pervasive::arbitrary()
    }

    /// The type's default value.
    open spec fn default_spec() -> Self {
        vstd::pervasive::arbitrary()
    }

    fn add(&self, other: &Self) -> (r: Self)
        ensures
            r == self.add_spec(*other),
    ;

    fn div(&self, other: &Self) -> (r: Self)
        ensures
            r == self.div_spec(*other),
    ;

    fn try_compare(&self, other: &Self) -> (r: Option<ValueOrder>)
        ensures
            r == self.compare_spec(*other),
    ;

    fn from_count(n: usize) -> (r: Self)
        ensures
            r == Self::from_count_spec(n as nat),
    ;

    fn default_value() -> (r: Self)
        ensures
            r == Self::default_spec(),
    ;

    fn dup(&self) -> (r: Self)
        ensures
            r == *self,
    ;
}

/// `x` clamped to the range of `i64`.
pub open spec fn clamp_to_i64(x: int) -> i64 {
    if x < i64::MIN {
        i64::MIN
    } else if x > i64::MAX {
        i64::MAX
    } else {
        x as i64
    }
}

impl SampleValue for i64 {
    /// Saturating addition.
    open spec fn add_spec(self, other: Self) -> Self {
        clamp_to_i64(self + other)
    }

    /// Euclidean division; division by zero yields zero, and the one quotient
    /// that does not fit is capped at the largest value.
    open spec fn div_spec(self, other: Self) -> Self {
        if other == 0 {
            0
        } else if i64::MIN <= self as int / other as int <= i64::MAX {
            (self as int / other as int) as i64
        } else {
            i64::MAX
        }
    }

    /// The total order on `i64`.
    open spec fn compare_spec(self, other: Self) -> Option<ValueOrder> {
        if self < other {
            Some(ValueOrder::Less)
        } else if self == other {
            Some(ValueOrder::Equal)
        } else {
            Some(ValueOrder::Greater)
        }
    }

    /// The count itself, or zero where it does not fit.
    open spec fn from_count_spec(n: nat) -> Self {
        if n <= i64::MAX {
            n as i64
        } else {
            0
        }
    }

    open spec fn default_spec() -> Self {
        0
    }

    fn add(&self, other: &Self) -> (r: Self) {
        match self.checked_add(*other) {
            Some(v) => v,
            None => {
                if *other > 0 {
                    i64::MAX
                } else {
                    i64::MIN
                }
            },
        }
    }

    fn div(&self, other: &Self) -> (r: Self) {
        match self.checked_div_euclid(*other) {
            Some(v) => v,
            None => {
                if *other == 0 {
                    0
                } else {
                    i64::MAX
                }
            },
        }
    }

    fn try_compare(&self, other: &Self) -> (r: Option<ValueOrder>) {
        if *self < *other {
            Some(ValueOrder::Less)
        } else if *self == *other {
            Some(ValueOrder::Equal)
        } else {
            Some(ValueOrder::Greater)
        }
    }

    fn from_count(n: usize) -> (r: Self) {
        let wide: u64 = n as u64;
        if wide <= i64::MAX as u64 {
            wide as i64
        } else {
            0
        }
    }

    fn default_value() -> (r: Self) {
        0
    }

    fn dup(&self) -> (r: Self) {
        *self
    }
}

} // verus!
