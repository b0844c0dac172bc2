//! The family of aggregation strategies that reduce one window of samples to
//! an optional value, together with the specification functions that pin down
//! what each strategy returns.

use crate::sample::Sample;
use crate::value::SampleValue;
use crate::value::ValueOrder;
use vstd::prelude::*;

verus! {

/// A caller-supplied reducer for whole windows. It is invoked by mutable
/// reference so that an implementation may carry state from one window to the
/// next, such as running statistics. Nothing is promised of its result.
pub trait CustomFunction<S: Sample>: Sized {
    fn reduce(&mut self, samples: &Vec<S>) -> Option<S::Value>;
}

/// The placeholder reducer for engines that use only built-in strategies.
pub struct NoCustom;

impl<S: Sample> CustomFunction<S> for NoCustom {
    fn reduce(&mut self, _samples: &Vec<S>) -> Option<S::Value> {
        None
    }
}

/// The aggregation strategies a window can be reduced with. All strategies
/// except `First` and `Last` treat the presence of a value, not the presence
/// of a sample, as the unit of aggregation: valueless samples are skipped.
pub enum ResamplingFunction<F = NoCustom> {
    /// The sum of the present values divided by their count; absent where no
    /// value is present.
    Average,
    /// The sum of the present values; absent where no value is present.
    Sum,
    /// The greatest present value; a value that cannot be ordered against
    /// another counts as the greater one exactly when it can be ordered
    /// against the type's default value.
    Max,
    /// The least present value; a value that cannot be ordered against
    /// another counts as the lesser one exactly when it can be ordered
    /// against the type's default value.
    Min,
    /// The first sample's value, even where that value is absent.
    First,
    /// The last sample's value, even where that value is absent.
    Last,
    /// The first present value in window order; absent where none is.
    Coalesce,
    /// The number of present values, converted to the value type.
    Count,
    /// A caller-supplied stateful reducer over the whole window.
    Custom(F),
}

impl<F> ResamplingFunction<F> {
    /// Whether this is the caller-supplied strategy, whose results the
    /// built-in specification does not constrain.
    pub open spec fn is_custom(self) -> bool {
        self is Custom
    }
}

/// The values present in a window, in window order.
pub open spec fn values_of<S: Sample>(w: Seq<S>) -> Seq<S::Value> {
    w.filter_map(|s: S| s.value_spec())
}

/// The left-to-right sum of a non-empty run of values.
pub open spec fn sum_of<V: SampleValue>(vs: Seq<V>) -> V
    recommends
        vs.len() >= 1,
    decreases vs.len(),
{
    if vs.len() <= 1 {
        vs[0]
    } else {
        sum_of(vs.drop_last()).add_spec(vs.last())
    }
}

/// Whether a running maximum `a` is kept in favour of a challenger `b`: kept
/// when `a` is strictly greater, and, where the two cannot be ordered, kept
/// exactly when `a` can be ordered against the type's default value.
pub open spec fn keeps_max<V: SampleValue>(a: V, b: V) -> bool {
    match a.compare_spec(b) {
        Some(o) => o == ValueOrder::Greater,
        None => a.compare_spec(V::default_spec()) is Some,
    }
}

/// Whether a running minimum `a` is kept in favour of a challenger `b`: kept
/// when `a` is less or equal, and, where the two cannot be ordered, kept
/// exactly when `a` can be ordered against the type's default value.
pub open spec fn keeps_min<V: SampleValue>(a: V, b: V) -> bool {
    match a.compare_spec(b) {
        Some(o) => o != ValueOrder::Greater,
        None => a.compare_spec(V::default_spec()) is Some,
    }
}

/// The maximum of a non-empty run of values under `keeps_max`; of values that
/// compare equal, the last one.
pub open spec fn max_of<V: SampleValue>(vs: Seq<V>) -> V
    recommends
        vs.len() >= 1,
    decreases vs.len(),
{
    if vs.len() <= 1 {
        vs[0]
    } else {
        let prev = max_of(vs.drop_last());
        if keeps_max(prev, vs.last()) {
            prev
        } else {
            vs.last()
        }
    }
}

/// The minimum of a non-empty run of values under `keeps_min`; of values that
/// compare equal, the first one.
pub open spec fn min_of<V: SampleValue>(vs: Seq<V>) -> V
    recommends
        vs.len() >= 1,
    decreases vs.len(),
{
    if vs.len() <= 1 {
        vs[0]
    } else {
        let prev = min_of(vs.drop_last());
        if keeps_min(prev, vs.last()) {
            prev
        } else {
            vs.last()
        }
    }
}

/// What a built-in strategy returns for a window. The caller-supplied
/// strategy is not constrained by this function; contracts that use it are
/// guarded by `is_custom`.
pub open spec fn apply_spec<S: Sample, F>(f: ResamplingFunction<F>, w: Seq<S>) -> Option<
    S::Value,
> {
    let vals = values_of(w);
    match f {
        ResamplingFunction::Average => if vals.len() == 0 {
            None
        } else {
            Some(
                sum_of(vals).div_spec(
                    <S::Value as SampleValue>::from_count_spec(vals.len()),
                ),
            )
        },
        ResamplingFunction::Sum => if vals.len() == 0 {
            None
        } else {
            Some(sum_of(vals))
        },
        ResamplingFunction::Max => if vals.len() == 0 {
            None
        } else {
            Some(max_of(vals))
        },
        ResamplingFunction::Min => if vals.len() == 0 {
            None
        } else {
            Some(min_of(vals))
        },
        ResamplingFunction::First => if w.len() == 0 {
            None
        } else {
            w[0].value_spec()
        },
        ResamplingFunction::Last => if w.len() == 0 {
            None
        } else {
            w.last().value_spec()
        },
        ResamplingFunction::Coalesce => if vals.len() == 0 {
            None
        } else {
            Some(vals[0])
        },
        ResamplingFunction::Count => Some(
            <S::Value as SampleValue>::from_count_spec(vals.len()),
        ),
        ResamplingFunction::Custom(_) => None,
    }
}

/// The values present in `samples`, in order, as a vector.
fn collect_values<S: Sample>(samples: &Vec<S>) -> (vals: Vec<S::Value>)
    ensures
        vals@ == values_of(samples@),
{
    let ghost f = |s: S| s.value_spec();
    let mut vals: Vec<S::Value> = Vec::new();
    let mut i: usize = 0;
    while i < samples.len()
        invariant
            i <= samples@.len(),
            vals@ == samples@.take(i as int).filter_map(f),
            f == (|s: S| s.value_spec()),
        decreases samples@.len() - i,
    {
        match samples[i].value() {
            Some(v) => {
                vals.push(v);
            },
            None => {},
        }
        proof {
            samples@.lemma_filter_map_take_succ(f, i as int);
            assert(vals@ =~= samples@.take(i as int + 1).filter_map(f));
        }
        i = i + 1;
    }
    assert(samples@.take(samples@.len() as int) == samples@);
    vals
}

/// Whether a running maximum is kept in favour of a challenger.
fn keep_max<V: SampleValue>(held: &V, challenger: &V) -> (r: bool)
    ensures
        r == keeps_max(*held, *challenger),
{
    match held.try_compare(challenger) {
        Some(o) => match o {
            ValueOrder::Greater => true,
            _ => false,
        },
        None => {
            let reference = V::default_value();
            held.try_compare(&reference).is_some()
        },
    }
}

/// Whether a running minimum is kept in favour of a challenger.
fn keep_min<V: SampleValue>(held: &V, challenger: &V) -> (r: bool)
    ensures
        r == keeps_min(*held, *challenger),
{
    match held.try_compare(challenger) {
        Some(o) => match o {
            ValueOrder::Greater => false,
            _ => true,
        },
        None => {
            let reference = V::default_value();
            held.try_compare(&reference).is_some()
        },
    }
}

/// The left-to-right sum of a non-empty vector of values.
fn sum_values<V: SampleValue>(vals: &Vec<V>) -> (r: V)
    requires
        vals@.len() >= 1,
    ensures
        r == sum_of(vals@),
{
    let mut acc: V = vals[0].dup();
    let mut i: usize = 1;
    while i < vals.len()
        invariant
            1 <= i <= vals@.len(),
            acc == sum_of(vals@.take(i as int)),
        decreases vals@.len() - i,
    {
        acc = acc.add(&vals[i]);
        proof {
            assert(vals@.take(i + 1).drop_last() =~= vals@.take(i as int));
        }
        i = i + 1;
    }
    proof {
        assert(vals@.take(vals@.len() as int) == vals@);
    }
    acc
}

/// The maximum of a non-empty vector of values under `keeps_max`.
fn max_value<V: SampleValue>(vals: &Vec<V>) -> (r: V)
    requires
        vals@.len() >= 1,
    ensures
        r == max_of(vals@),
{
    let mut acc: V = vals[0].dup();
    let mut i: usize = 1;
    while i < vals.len()
        invariant
            1 <= i <= vals@.len(),
            acc == max_of(vals@.take(i as int)),
        decreases vals@.len() - i,
    {
        if !keep_max(&acc, &vals[i]) {
            acc = vals[i].dup();
        }
        proof {
            assert(vals@.take(i + 1).drop_last() =~= vals@.take(i as int));
        }
        i = i + 1;
    }
    proof {
        assert(vals@.take(vals@.len() as int) == vals@);
    }
    acc
}

/// The minimum of a non-empty vector of values under `keeps_min`.
fn min_value<V: SampleValue>(vals: &Vec<V>) -> (r: V)
    requires
        vals@.len() >= 1,
    ensures
        r == min_of(vals@),
{
    let mut acc: V = vals[0].dup();
    let mut i: usize = 1;
    while i < vals.len()
        invariant
            1 <= i <= vals@.len(),
            acc == min_of(vals@.take(i as int)),
        decreases vals@.len() - i,
    {
        if !keep_min(&acc, &vals[i]) {
            acc = vals[i].dup();
        }
        proof {
            assert(vals@.take(i + 1).drop_last() =~= vals@.take(i as int));
        }
        i = i + 1;
    }
    proof {
        assert(vals@.take(vals@.len() as int) == vals@);
    }
    acc
}

impl<F> ResamplingFunction<F> {
    /// Reduces one window of samples to an optional value. For every built-in
    /// strategy the result is exactly what `apply_spec` says and the strategy
    /// itself is untouched; the caller-supplied strategy may answer anything
    /// and update its own state.
    pub fn apply<S: Sample>(&mut self, samples: &Vec<S>) -> (r: Option<S::Value>) where
        F: CustomFunction<S>,

        ensures
            !old(self).is_custom() ==> r == apply_spec(*old(self), samples@),
            !old(self).is_custom() ==> *final(self) == *old(self),
    {
        match self {
            ResamplingFunction::Average => {
                let vals = collect_values(samples);
                if vals.len() == 0 {
                    None
                } else {
                    let total = sum_values(&vals);
                    let count = <S::Value as SampleValue>::from_count(vals.len());
                    Some(total.div(&count))
                }
            },
            ResamplingFunction::Sum => {
                let vals = collect_values(samples);
                if vals.len() == 0 {
                    None
                } else {
                    Some(sum_values(&vals))
                }
            },
            ResamplingFunction::Max => {
                let vals = collect_values(samples);
                if vals.len() == 0 {
                    None
                } else {
                    Some(max_value(&vals))
                }
            },
            ResamplingFunction::Min => {
                let vals = collect_values(samples);
                if vals.len() == 0 {
                    None
                } else {
                    Some(min_value(&vals))
                }
            },
            ResamplingFunction::First => {
                if samples.len() == 0 {
                    None
                } else {
                    samples[0].value()
                }
            },
            ResamplingFunction::Last => {
                if samples.len() == 0 {
                    None
                } else {
                    samples[samples.len() - 1].value()
                }
            },
            ResamplingFunction::Coalesce => {
                let vals = collect_values(samples);
                if vals.len() == 0 {
                    None
                } else {
                    Some(vals[0].dup())
                }
            },
            ResamplingFunction::Count => {
                let vals = collect_values(samples);
                Some(<S::Value as SampleValue>::from_count(vals.len()))
            },
            ResamplingFunction::Custom(f) => f.reduce(samples),
        }
    }
}

/// For any one window: a positive count of present values forces the average
/// to be the sum divided by that count, and a zero count leaves both the sum
/// and the average absent while the count aggregate reports zero.
pub proof fn lemma_average_sum_count_consistent<S: Sample, F>(w: Seq<S>)
    ensures
        values_of(w).len() > 0 ==> apply_spec::<S, F>(ResamplingFunction::Average, w) == Some(
            sum_of(values_of(w)).div_spec(
                <S::Value as SampleValue>::from_count_spec(values_of(w).len()),
            ),
        ),
        values_of(w).len() > 0 ==> apply_spec::<S, F>(ResamplingFunction::Sum, w) == Some(
            sum_of(values_of(w)),
        ),
        values_of(w).len() == 0 ==> apply_spec::<S, F>(ResamplingFunction::Sum, w) is None,
        values_of(w).len() == 0 ==> apply_spec::<S, F>(ResamplingFunction::Average, w) is None,
        apply_spec::<S, F>(ResamplingFunction::Count, w) == Some(
            <S::Value as SampleValue>::from_count_spec(values_of(w).len()),
        ),
{
}

} // verus!
