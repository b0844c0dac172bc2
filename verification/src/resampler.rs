//! The resampling engine: an append-only buffer of samples, a cursor marking
//! the next window to emit, and the windowing loop that turns buffered
//! samples into one aggregated output sample per whole interval.

use crate::align::epoch_align;
use crate::align::spec_align;
use crate::function::apply_spec;
use crate::function::values_of;
use crate::function::CustomFunction;
use crate::function::NoCustom;
use crate::function::ResamplingFunction;
use crate::sample::Sample;
use vstd::arithmetic::div_mod::lemma_fundamental_div_mod_converse_div;
use vstd::arithmetic::mul::lemma_mul_inequality;
use vstd::prelude::*;

verus! {

/// Whether a sample at `timestamp` still belongs to a window whose upper
/// edge is `edge`: strictly below the edge for left-aligned windows, at or
/// below it for right-aligned ones.
pub open spec fn left_of_edge(left_aligned: bool, timestamp: int, edge: int) -> bool {
    if left_aligned {
        timestamp < edge
    } else {
        timestamp <= edge
    }
}

/// Whether a sample at `timestamp` is recent enough to survive a retention
/// cutoff at `edge`: the exact complement of `left_of_edge`.
pub open spec fn right_of_edge(left_aligned: bool, timestamp: int, edge: int) -> bool {
    if left_aligned {
        timestamp >= edge
    } else {
        timestamp > edge
    }
}

/// How many samples a front-to-back pass over `b` consumes for a window with
/// upper edge `edge`: the longest prefix whose samples all lie left of the
/// edge.
pub open spec fn consumed_count<S: Sample>(b: Seq<S>, left_aligned: bool, edge: int) -> nat
    decreases b.len(),
{
    if b.len() == 0 {
        0
    } else if left_of_edge(left_aligned, b[0].timestamp_spec() as int, edge) {
        1 + consumed_count(b.drop_first(), left_aligned, edge)
    } else {
        0
    }
}

/// The samples of `w`, in order, that a retention cutoff keeps.
pub open spec fn retained<S: Sample>(w: Seq<S>, left_aligned: bool, cutoff: int) -> Seq<S>
    decreases w.len(),
{
    if w.len() == 0 {
        Seq::empty()
    } else {
        let rest = retained(w.drop_last(), left_aligned, cutoff);
        if right_of_edge(left_aligned, w.last().timestamp_spec() as int, cutoff) {
            rest.push(w.last())
        } else {
            rest
        }
    }
}

/// The upper edge of the window numbered `k` from a cursor at `start`.
pub open spec fn window_edge(start: int, interval: int, k: int) -> int {
    start + (k + 1) * interval
}

/// The retention cutoff in force while the window numbered `k` is emitted.
pub open spec fn window_cutoff(start: int, interval: int, max_age: int, k: int) -> int {
    window_edge(start, interval, k) - interval * max_age
}

/// The timestamp the window numbered `k` is emitted under: its lower edge
/// for left-aligned windows, its upper edge for right-aligned ones.
pub open spec fn window_label(start: int, interval: int, left_aligned: bool, k: int) -> int {
    if left_aligned {
        start + k * interval
    } else {
        start + (k + 1) * interval
    }
}

/// How many windows one resampling pass from a cursor at `start` up to `end`
/// emits: one per started interval.
pub open spec fn window_count(start: int, end: int, interval: int) -> int {
    if start >= end {
        0
    } else {
        (end - start - 1) / interval + 1
    }
}

/// The working set the window numbered `k` is aggregated over: every sample
/// consumed up to that window's edge that is still right of that window's
/// retention cutoff.
pub open spec fn window_samples<S: Sample>(
    b: Seq<S>,
    start: int,
    interval: int,
    max_age: int,
    left_aligned: bool,
    k: int,
) -> Seq<S> {
    retained(
        b.take(consumed_count(b, left_aligned, window_edge(start, interval, k)) as int),
        left_aligned,
        window_cutoff(start, interval, max_age, k),
    )
}

/// Every sample in the consumed prefix lies left of the edge that cut it.
pub proof fn lemma_consumed_prefix<S: Sample>(b: Seq<S>, left_aligned: bool, edge: int)
    ensures
        consumed_count(b, left_aligned, edge) <= b.len(),
        forall|j: int|
            0 <= j < consumed_count(b, left_aligned, edge) ==> left_of_edge(
                left_aligned,
                (#[trigger] b[j]).timestamp_spec() as int,
                edge,
            ),
    decreases b.len(),
{
    if b.len() == 0 {
    } else if left_of_edge(left_aligned, b[0].timestamp_spec() as int, edge) {
        lemma_consumed_prefix(b.drop_first(), left_aligned, edge);
        assert forall|j: int| 0 <= j < consumed_count(b, left_aligned, edge) implies left_of_edge(
            left_aligned,
            (#[trigger] b[j]).timestamp_spec() as int,
            edge,
        ) by {
            if j > 0 {
                assert(b.drop_first()[j - 1] == b[j]);
            }
        }
    }
}

/// A position that ends a run of samples left of the edge is exactly the
/// consumed count for that edge.
pub proof fn lemma_consumed_from_prefix<S: Sample>(
    b: Seq<S>,
    left_aligned: bool,
    edge: int,
    p: int,
)
    requires
        0 <= p <= b.len(),
        forall|j: int|
            0 <= j < p ==> left_of_edge(
                left_aligned,
                (#[trigger] b[j]).timestamp_spec() as int,
                edge,
            ),
        p == b.len() || !left_of_edge(left_aligned, b[p].timestamp_spec() as int, edge),
    ensures
        consumed_count(b, left_aligned, edge) == p,
    decreases b.len(),
{
    if b.len() == 0 {
    } else if p == 0 {
    } else {
        assert(left_of_edge(left_aligned, b[0].timestamp_spec() as int, edge));
        let rest = b.drop_first();
        assert forall|j: int| 0 <= j < p - 1 implies left_of_edge(
            left_aligned,
            (#[trigger] rest[j]).timestamp_spec() as int,
            edge,
        ) by {
            assert(rest[j] == b[j + 1]);
        }
        if p < b.len() {
            assert(rest[p - 1] == b[p]);
        }
        lemma_consumed_from_prefix(rest, left_aligned, edge, p - 1);
    }
}

/// Retention distributes over concatenation.
pub proof fn lemma_retained_concat<S: Sample>(
    x: Seq<S>,
    y: Seq<S>,
    left_aligned: bool,
    cutoff: int,
)
    ensures
        retained(x + y, left_aligned, cutoff) == retained(x, left_aligned, cutoff) + retained(
            y,
            left_aligned,
            cutoff,
        ),
    decreases y.len(),
{
    if y.len() == 0 {
        assert(x + y =~= x);
        assert(retained(y, left_aligned, cutoff) == Seq::<S>::empty());
        assert(retained(x, left_aligned, cutoff) + Seq::<S>::empty() =~= retained(
            x,
            left_aligned,
            cutoff,
        ));
    } else {
        lemma_retained_concat(x, y.drop_last(), left_aligned, cutoff);
        assert((x + y).drop_last() =~= x + y.drop_last());
        assert((x + y).last() == y.last());
        if right_of_edge(left_aligned, y.last().timestamp_spec() as int, cutoff) {
            assert(retained(x, left_aligned, cutoff) + retained(y.drop_last(), left_aligned, cutoff).push(
                y.last(),
            ) =~= (retained(x, left_aligned, cutoff) + retained(
                y.drop_last(),
                left_aligned,
                cutoff,
            )).push(y.last()));
        }
    }
}

/// Pruning once more with a cutoff at least as late keeps exactly what the
/// later cutoff alone would keep.
pub proof fn lemma_retained_tighten<S: Sample>(
    w: Seq<S>,
    left_aligned: bool,
    early: int,
    late: int,
)
    requires
        early <= late,
    ensures
        retained(retained(w, left_aligned, early), left_aligned, late) == retained(
            w,
            left_aligned,
            late,
        ),
    decreases w.len(),
{
    if w.len() == 0 {
    } else {
        let rest = w.drop_last();
        let last = w.last();
        lemma_retained_tighten(rest, left_aligned, early, late);
        if right_of_edge(left_aligned, last.timestamp_spec() as int, early) {
            let kept = retained(rest, left_aligned, early);
            assert(kept.push(last).drop_last() =~= kept);
        }
    }
}

/// A run of samples that all lie left of a cutoff loses every one of them.
pub proof fn lemma_retained_all_left_empty<S: Sample>(w: Seq<S>, left_aligned: bool, cutoff: int)
    requires
        forall|j: int|
            0 <= j < w.len() ==> left_of_edge(
                left_aligned,
                (#[trigger] w[j]).timestamp_spec() as int,
                cutoff,
            ),
    ensures
        retained(w, left_aligned, cutoff) == Seq::<S>::empty(),
    decreases w.len(),
{
    if w.len() == 0 {
    } else {
        assert(w[w.len() - 1] == w.last());
        lemma_retained_all_left_empty(w.drop_last(), left_aligned, cutoff);
    }
}

/// Appending one sample extends the run of present values by that sample's
/// value, where it has one.
pub proof fn lemma_values_of_push<S: Sample>(w: Seq<S>, s: S)
    ensures
        values_of(w.push(s)) == values_of(w) + (match s.value_spec() {
            Some(v) => seq![v],
            None => Seq::empty(),
        }),
{
    assert(w.push(s).drop_last() =~= w);
    assert(w.push(s).last() == s);
}

/// Lowering the retention cutoff never loses a present value.
pub proof fn lemma_values_monotone_in_cutoff<S: Sample>(
    w: Seq<S>,
    left_aligned: bool,
    early: int,
    late: int,
)
    requires
        early <= late,
    ensures
        values_of(retained(w, left_aligned, late)).len() <= values_of(
            retained(w, left_aligned, early),
        ).len(),
    decreases w.len(),
{
    if w.len() == 0 {
    } else {
        let rest = w.drop_last();
        let last = w.last();
        lemma_values_monotone_in_cutoff(rest, left_aligned, early, late);
        if right_of_edge(left_aligned, last.timestamp_spec() as int, late) {
            lemma_values_of_push(retained(rest, left_aligned, late), last);
            lemma_values_of_push(retained(rest, left_aligned, early), last);
        } else if right_of_edge(left_aligned, last.timestamp_spec() as int, early) {
            lemma_values_of_push(retained(rest, left_aligned, early), last);
        }
    }
}

/// Raising the retention bound, everything else held fixed, never shrinks
/// the run of present values any window is aggregated over.
pub proof fn lemma_retention_monotone<S: Sample>(
    b: Seq<S>,
    start: int,
    interval: int,
    left_aligned: bool,
    low_age: int,
    high_age: int,
    k: int,
)
    requires
        1 <= interval,
        0 <= low_age <= high_age,
    ensures
        values_of(window_samples(b, start, interval, low_age, left_aligned, k)).len() <= values_of(
            window_samples(b, start, interval, high_age, left_aligned, k),
        ).len(),
{
    lemma_mul_inequality(low_age, high_age, interval);
    vstd::arithmetic::mul::lemma_mul_is_commutative(interval, low_age);
    vstd::arithmetic::mul::lemma_mul_is_commutative(interval, high_age);
    let consumed = b.take(
        consumed_count(b, left_aligned, window_edge(start, interval, k)) as int,
    );
    lemma_values_monotone_in_cutoff(
        consumed,
        left_aligned,
        window_cutoff(start, interval, high_age, k),
        window_cutoff(start, interval, low_age, k),
    );
}

/// A window whose retention bound is zero keeps nothing: its cutoff is its
/// own upper edge, and everything consumed lies left of that edge.
pub proof fn lemma_zero_retention_empty<S: Sample>(
    b: Seq<S>,
    start: int,
    interval: int,
    left_aligned: bool,
    k: int,
)
    ensures
        window_samples(b, start, interval, 0, left_aligned, k) == Seq::<S>::empty(),
{
    let edge = window_edge(start, interval, k);
    let consumed = b.take(consumed_count(b, left_aligned, edge) as int);
    lemma_consumed_prefix(b, left_aligned, edge);
    assert forall|j: int| 0 <= j < consumed.len() implies left_of_edge(
        left_aligned,
        (#[trigger] consumed[j]).timestamp_spec() as int,
        edge,
    ) by {
        assert(consumed[j] == b[j]);
    }
    assert(window_cutoff(start, interval, 0, k) == edge);
    lemma_retained_all_left_empty(consumed, left_aligned, edge);
}

/// An empty buffer gives every window an empty working set.
pub proof fn lemma_empty_buffer_empty_window<S: Sample>(
    start: int,
    interval: int,
    max_age: int,
    left_aligned: bool,
    k: int,
)
    ensures
        window_samples(Seq::<S>::empty(), start, interval, max_age, left_aligned, k)
            == Seq::<S>::empty(),
{
    let b = Seq::<S>::empty();
    assert(b.take(consumed_count(b, left_aligned, window_edge(start, interval, k)) as int) =~= b);
}

/// On an empty window every built-in strategy but the count answers absent.
pub proof fn lemma_apply_on_empty_window<S: Sample, F>(f: ResamplingFunction<F>)
    requires
        !(f is Count),
        !(f is Custom),
    ensures
        apply_spec(f, Seq::<S>::empty()) is None,
{
    assert(values_of(Seq::<S>::empty()) =~= Seq::<S::Value>::empty());
}

/// Resampling an empty buffer leaves every built-in strategy but the count
/// with an absent result, in every window and under either boundary
/// convention.
pub proof fn lemma_empty_buffer_yields_absent<S: Sample, F>(
    f: ResamplingFunction<F>,
    start: int,
    interval: int,
    max_age: int,
    left_aligned: bool,
    k: int,
)
    requires
        !(f is Count),
        !(f is Custom),
    ensures
        apply_spec(
            f,
            window_samples(Seq::<S>::empty(), start, interval, max_age, left_aligned, k),
        ) is None,
{
    lemma_empty_buffer_empty_window::<S>(start, interval, max_age, left_aligned, k);
    lemma_apply_on_empty_window::<S, F>(f);
}

/// With a retention bound of zero, every built-in strategy but the count
/// answers absent on every window, whatever the buffer holds.
pub proof fn lemma_zero_retention_yields_absent<S: Sample, F>(
    f: ResamplingFunction<F>,
    b: Seq<S>,
    start: int,
    interval: int,
    left_aligned: bool,
    k: int,
)
    requires
        !(f is Count),
        !(f is Custom),
    ensures
        apply_spec(f, window_samples(b, start, interval, 0, left_aligned, k)) is None,
{
    lemma_zero_retention_empty(b, start, interval, left_aligned, k);
    lemma_apply_on_empty_window::<S, F>(f);
}

/// One more window moves the running product one interval further.
proof fn lemma_mul_succ(k: int, interval: int)
    ensures
        (k + 1) * interval == k * interval + interval,
{
    vstd::arithmetic::mul::lemma_mul_is_distributive_add_other_way(interval, k, 1);
    vstd::arithmetic::mul::lemma_mul_basics_4(interval);
}

/// Whether `timestamp` still belongs to a window with upper edge `edge`.
fn is_left_of_edge(left_aligned: bool, timestamp: i64, edge: i64) -> (r: bool)
    ensures
        r == left_of_edge(left_aligned, timestamp as int, edge as int),
{
    if left_aligned {
        timestamp < edge
    } else {
        timestamp <= edge
    }
}

/// Whether `timestamp` survives a retention cutoff.
fn is_right_of_edge(left_aligned: bool, timestamp: i64, cutoff: i128) -> (r: bool)
    ensures
        r == right_of_edge(left_aligned, timestamp as int, cutoff as int),
{
    if left_aligned {
        timestamp as i128 >= cutoff
    } else {
        timestamp as i128 > cutoff
    }
}

/// The samples of `v`, in order, that the retention cutoff keeps.
fn retain_right_of<S: Sample>(v: &Vec<S>, left_aligned: bool, cutoff: i128) -> (out: Vec<S>)
    ensures
        out@ == retained(v@, left_aligned, cutoff as int),
{
    let mut out: Vec<S> = Vec::new();
    let mut i: usize = 0;
    while i < v.len()
        invariant
            i <= v@.len(),
            out@ == retained(v@.take(i as int), left_aligned, cutoff as int),
        decreases v@.len() - i,
    {
        if is_right_of_edge(left_aligned, v[i].timestamp(), cutoff) {
            out.push(v[i].dup());
        }
        proof {
            assert(v@.take(i + 1).drop_last() =~= v@.take(i as int));
            assert(v@.take(i + 1).last() == v@[i as int]);
        }
        i = i + 1;
    }
    proof {
        assert(v@.take(v@.len() as int) == v@);
    }
    out
}

/// The stateful engine: a buffer of incoming samples, a cursor marking the
/// next window to emit, and the retention and cadence state the windowing
/// loop maintains.
pub struct Resampler<S: Sample, F: CustomFunction<S> = NoCustom> {
    /// Window width in milliseconds; fixed at construction.
    interval: i64,
    /// The active aggregation strategy.
    resampling_function: ResamplingFunction<F>,
    /// Samples not yet consumed into windows, in arrival order.
    buffer: Vec<S>,
    /// How many sample spacings of history stay eligible for aggregation;
    /// zero means no sample is ever recent enough.
    max_age_in_intervals: i32,
    /// The cursor: the lower edge of the next window to emit. Never
    /// decreases.
    start: i64,
    /// The timestamp of the oldest buffered sample at the start of the last
    /// resampling pass.
    input_start: Option<i64>,
    /// The sample spacing inferred once from the data, never below the
    /// configured interval.
    input_interval: Option<i64>,
    /// Whether a window is labeled by its lower edge and keeps its lower
    /// edge inclusive, rather than the upper one.
    left_aligned: bool,
}

impl<S: Sample, F: CustomFunction<S>> Resampler<S, F> {
    /// Window width in milliseconds.
    pub closed spec fn interval_spec(&self) -> i64 {
        self.interval
    }

    /// The active aggregation strategy.
    pub closed spec fn function_spec(&self) -> ResamplingFunction<F> {
        self.resampling_function
    }

    /// The buffered samples, in arrival order.
    pub closed spec fn buffer_spec(&self) -> Seq<S> {
        self.buffer@
    }

    /// The retention bound, in sample spacings.
    pub closed spec fn max_age_spec(&self) -> i32 {
        self.max_age_in_intervals
    }

    /// The cursor: lower edge of the next window to emit.
    pub closed spec fn start_spec(&self) -> i64 {
        self.start
    }

    /// The oldest buffered timestamp seen at the start of the last pass.
    pub closed spec fn input_start_spec(&self) -> Option<i64> {
        self.input_start
    }

    /// The inferred sample spacing, where one has been inferred.
    pub closed spec fn input_interval_spec(&self) -> Option<i64> {
        self.input_interval
    }

    /// The window boundary convention.
    pub closed spec fn left_aligned_spec(&self) -> bool {
        self.left_aligned
    }

    /// Well-formedness: a positive interval, a non-negative retention bound,
    /// and an inferred spacing that, once set, equals the interval, because
    /// it is computed from the oldest buffered sample against itself.
    pub open spec fn wf(&self) -> bool {
        &&& 1 <= self.interval_spec()
        &&& 0 <= self.max_age_spec()
        &&& (self.input_interval_spec() is None || self.input_interval_spec() == Some(
            self.interval_spec(),
        ))
    }

    /// Everything one resampling pass up to `end` promises: how many samples
    /// come out, which timestamps they carry, which working set each value
    /// was aggregated over, and the state the engine is left in.
    pub open spec fn resample_post(self, post: Self, out: Seq<S>, end: int) -> bool {
        let start0 = self.start_spec() as int;
        let ival = self.interval_spec() as int;
        let age = self.max_age_spec() as int;
        let left = self.left_aligned_spec();
        &&& post.wf()
        &&& post.interval_spec() == self.interval_spec()
        &&& post.max_age_spec() == self.max_age_spec()
        &&& post.left_aligned_spec() == self.left_aligned_spec()
        &&& (!self.function_spec().is_custom() ==> post.function_spec() == self.function_spec())
        &&& out.len() == window_count(start0, end, ival)
        &&& post.start_spec() == start0 + out.len() * ival
        &&& (forall|k: int|
            0 <= k < out.len() ==> (#[trigger] out[k]).timestamp_spec() as int == window_label(
                start0,
                ival,
                left,
                k,
            ))
        &&& (!self.function_spec().is_custom() ==> (forall|k: int|
            0 <= k < out.len() ==> (#[trigger] out[k]).value_spec() == apply_spec(
                self.function_spec(),
                window_samples(self.buffer_spec(), start0, ival, age, left, k),
            )))
        &&& (start0 >= end ==> post == self && out == Seq::<S>::empty())
        &&& (start0 < end ==> {
            &&& post.buffer_spec() == retained(self.buffer_spec(), left, end - ival * age)
            &&& post.input_start_spec() == (if self.buffer_spec().len() > 0 {
                Some(self.buffer_spec()[0].timestamp_spec())
            } else {
                None::<i64>
            })
            &&& post.input_interval_spec() == (if self.input_interval_spec() is Some {
                self.input_interval_spec()
            } else if consumed_count(
                self.buffer_spec(),
                left,
                window_edge(start0, ival, window_count(start0, end, ival) - 1),
            ) > 0 {
                Some(self.interval_spec())
            } else {
                None::<i64>
            })
        })
    }

    /// Creates an engine whose cursor is the given start instant aligned
    /// down to the nearest interval boundary from the epoch.
    pub fn new(
        interval: i64,
        resampling_function: ResamplingFunction<F>,
        max_age_in_intervals: i32,
        start: i64,
        left_aligned: bool,
    ) -> (r: Self)
        requires
            1 <= interval,
            0 <= max_age_in_intervals,
            i64::MIN <= start - interval + 1,
        ensures
            r.wf(),
            r.interval_spec() == interval,
            r.function_spec() == resampling_function,
            r.max_age_spec() == max_age_in_intervals,
            r.start_spec() == spec_align(interval as int, start as int, 0),
            r.left_aligned_spec() == left_aligned,
            r.buffer_spec() == Seq::<S>::empty(),
            r.input_start_spec() is None,
            r.input_interval_spec() is None,
    {
        let aligned = epoch_align(interval, start, None);
        Resampler {
            interval,
            resampling_function,
            buffer: Vec::new(),
            max_age_in_intervals,
            start: aligned,
            input_start: None,
            input_interval: None,
            left_aligned,
        }
    }

    /// Appends one sample to the buffer. Nothing else changes; nothing is
    /// validated, not even timestamp order.
    pub fn push(&mut self, sample: S)
        ensures
            final(self).buffer_spec() == old(self).buffer_spec().push(sample),
            final(self).interval_spec() == old(self).interval_spec(),
            final(self).function_spec() == old(self).function_spec(),
            final(self).max_age_spec() == old(self).max_age_spec(),
            final(self).start_spec() == old(self).start_spec(),
            final(self).input_start_spec() == old(self).input_start_spec(),
            final(self).input_interval_spec() == old(self).input_interval_spec(),
            final(self).left_aligned_spec() == old(self).left_aligned_spec(),
    {
        self.buffer.push(sample);
    }

    /// Appends a batch of samples to the buffer, in order.
    pub fn extend(&mut self, samples: Vec<S>)
        ensures
            final(self).buffer_spec() == old(self).buffer_spec() + samples@,
            final(self).interval_spec() == old(self).interval_spec(),
            final(self).function_spec() == old(self).function_spec(),
            final(self).max_age_spec() == old(self).max_age_spec(),
            final(self).start_spec() == old(self).start_spec(),
            final(self).input_start_spec() == old(self).input_start_spec(),
            final(self).input_interval_spec() == old(self).input_interval_spec(),
            final(self).left_aligned_spec() == old(self).left_aligned_spec(),
    {
        let ghost incoming = samples@;
        let mut i: usize = 0;
        while i < samples.len()
            invariant
                i <= incoming.len(),
                samples@ == incoming,
                self.buffer_spec() == old(self).buffer_spec() + incoming.take(i as int),
                self.interval_spec() == old(self).interval_spec(),
                self.function_spec() == old(self).function_spec(),
                self.max_age_spec() == old(self).max_age_spec(),
                self.start_spec() == old(self).start_spec(),
                self.input_start_spec() == old(self).input_start_spec(),
                self.input_interval_spec() == old(self).input_interval_spec(),
                self.left_aligned_spec() == old(self).left_aligned_spec(),
            decreases incoming.len() - i,
        {
            self.buffer.push(samples[i].dup());
            proof {
                assert(old(self).buffer_spec() + incoming.take(i + 1) =~= (old(
                    self,
                ).buffer_spec() + incoming.take(i as int)).push(incoming[i as int]));
            }
            i = i + 1;
        }
        proof {
            assert(incoming.take(incoming.len() as int) == incoming);
        }
    }

    /// The buffered samples, for diagnostic use.
    pub fn buffer(&self) -> (b: &Vec<S>)
        ensures
            b@ == self.buffer_spec(),
    {
        &self.buffer
    }

    /// One resampling pass: consumes buffered samples into successive whole
    /// windows from the cursor up to `end`, aggregates each window's working
    /// set, prunes what has aged past the retention cutoff, emits one sample
    /// per window, and advances the cursor. A call whose cursor is already
    /// at or past `end` changes nothing and returns nothing.
    #[verifier::loop_isolation(false)]
    #[verifier::rlimit(40)]
    pub fn resample(&mut self, end: i64) -> (out: Vec<S>)
        requires
            old(self).wf(),
            end + old(self).interval_spec() <= i64::MAX,
        ensures
            old(self).resample_post(*final(self), out@, end as int),
    {
        let ghost s0 = *self;
        let ghost start0 = self.start as int;
        let ghost ival = self.interval as int;
        let ghost age = self.max_age_in_intervals as int;
        let ghost b = self.buffer@;
        if self.start >= end {
            return Vec::new();
        }
        let interval: i64 = self.interval;
        let left: bool = self.left_aligned;
        let max_age: i32 = self.max_age_in_intervals;
        let mut inferred: Option<i64> = self.input_interval;
        let first_ts: Option<i64> = if self.buffer.len() > 0 {
            Some(self.buffer[0].timestamp())
        } else {
            None
        };
        let mut cursor: i64 = self.start;
        let mut out: Vec<S> = Vec::new();
        let mut working: Vec<S> = Vec::new();
        let mut consumed: usize = 0;
        while cursor < end
            invariant
                1 <= interval,
                cursor == start0 + out@.len() * ival,
                out@.len() >= 1 ==> start0 + (out@.len() - 1) * ival < end,
                self.interval == s0.interval_spec(),
                self.buffer@ == b,
                self.start == s0.start_spec(),
                self.max_age_in_intervals == s0.max_age_spec(),
                self.left_aligned == s0.left_aligned_spec(),
                self.input_start == s0.input_start_spec(),
                self.input_interval == s0.input_interval_spec(),
                !s0.function_spec().is_custom() ==> self.resampling_function
                    == s0.function_spec(),
                consumed <= b.len(),
                out@.len() == 0 ==> consumed == 0 && working@ == Seq::<S>::empty(),
                out@.len() >= 1 ==> consumed == consumed_count(
                    b,
                    left,
                    window_edge(start0, ival, out@.len() - 1),
                ),
                out@.len() >= 1 ==> working@ == window_samples(
                    b,
                    start0,
                    ival,
                    age,
                    left,
                    out@.len() - 1,
                ),
                inferred is None ==> consumed == 0,
                s0.input_interval_spec() is Some ==> inferred == s0.input_interval_spec(),
                s0.input_interval_spec() is None && consumed > 0 ==> inferred == Some(interval),
                s0.input_interval_spec() is None && consumed == 0 ==> inferred is None,
                forall|k: int|
                    0 <= k < out@.len() ==> (#[trigger] out@[k]).timestamp_spec() as int
                        == window_label(start0, ival, left, k),
                !s0.function_spec().is_custom() ==> (forall|k: int|
                    0 <= k < out@.len() ==> (#[trigger] out@[k]).value_spec() == apply_spec(
                        s0.function_spec(),
                        window_samples(b, start0, ival, age, left, k),
                    )),
            decreases vstd::math::max(end - cursor, 0),
        {
            let ghost w = out@.len() as int;
            let edge: i64 = cursor + interval;
            proof {
                lemma_mul_succ(w, ival);
                assert(edge as int == window_edge(start0, ival, w));
                if w > 0 {
                    lemma_mul_succ(w - 1, ival);
                    lemma_consumed_prefix(b, left, window_edge(start0, ival, w - 1));
                }
            }
            let ghost c_base = consumed as int;
            let ghost w_base = working@;
            while consumed < self.buffer.len() && is_left_of_edge(
                left,
                self.buffer[consumed].timestamp(),
                edge,
            )
                invariant
                    c_base <= consumed <= b.len(),
                    self.buffer@ == b,
                    working@ == w_base + b.subrange(c_base, consumed as int),
                    forall|j: int|
                        0 <= j < consumed ==> left_of_edge(
                            left,
                            (#[trigger] b[j]).timestamp_spec() as int,
                            edge as int,
                        ),
                    inferred is None ==> consumed == 0,
                    s0.input_interval_spec() is Some ==> inferred == s0.input_interval_spec(),
                    s0.input_interval_spec() is None && consumed > 0 ==> inferred == Some(
                        interval,
                    ),
                    s0.input_interval_spec() is None && consumed == 0 ==> inferred is None,
                decreases b.len() - consumed,
            {
                working.push(self.buffer[consumed].dup());
                if inferred.is_none() {
                    let oldest: i64 = match first_ts {
                        Some(t) => t,
                        None => 0,
                    };
                    let spacing0: i64 = self.buffer[consumed].timestamp() - oldest;
                    inferred = Some(
                        if spacing0 > interval {
                            spacing0
                        } else {
                            interval
                        },
                    );
                }
                consumed = consumed + 1;
                proof {
                    assert(b.subrange(c_base, consumed as int) =~= b.subrange(
                        c_base,
                        consumed - 1,
                    ).push(b[consumed - 1]));
                    assert(w_base + b.subrange(c_base, consumed - 1).push(b[consumed - 1]) =~= (
                    w_base + b.subrange(c_base, consumed - 1)).push(b[consumed - 1]));
                }
            }
            proof {
                lemma_consumed_from_prefix(b, left, edge as int, consumed as int);
            }
            let spacing: i64 = match inferred {
                Some(v) => v,
                None => interval,
            };
            proof {
                assert(spacing == interval);
                assert((interval as i128) * (max_age as i128) <= (i64::MAX as i128) * (
                i32::MAX as i128) && 0 <= (interval as i128) * (max_age as i128))
                    by (nonlinear_arith)
                    requires
                        1 <= interval as i128 <= i64::MAX as i128,
                        0 <= max_age as i128 <= i32::MAX as i128,
                ;
            }
            let span: i128 = (spacing as i128) * (max_age as i128);
            let cutoff: i128 = edge as i128 - span;
            let pruned = retain_right_of(&working, left, cutoff);
            working = pruned;
            proof {
                let cw = window_cutoff(start0, ival, age, w);
                assert(cutoff as int == cw);
                let cprev: int = if w == 0 {
                    cw
                } else {
                    window_cutoff(start0, ival, age, w - 1)
                };
                assert(cprev <= cw);
                if w == 0 {
                    assert(b.take(0) =~= Seq::<S>::empty());
                    assert(w_base == retained(b.take(c_base), left, cprev));
                } else {
                    assert(w_base == retained(b.take(c_base), left, cprev));
                }
                lemma_retained_concat(w_base, b.subrange(c_base, consumed as int), left, cw);
                lemma_retained_tighten(b.take(c_base), left, cprev, cw);
                lemma_retained_concat(
                    b.take(c_base),
                    b.subrange(c_base, consumed as int),
                    left,
                    cw,
                );
                assert(b.take(c_base) + b.subrange(c_base, consumed as int) =~= b.take(
                    consumed as int,
                ));
                assert(working@ == window_samples(b, start0, ival, age, left, w));
            }
            let value = self.resampling_function.apply(&working);
            let label: i64 = if left {
                cursor
            } else {
                edge
            };
            out.push(S::new(label, value));
            proof {
                assert(label as int == window_label(start0, ival, left, w));
            }
            cursor = edge;
        }
        self.start = cursor;
        self.input_interval = inferred;
        self.input_start = first_ts;
        let spacing: i64 = match inferred {
            Some(v) => v,
            None => interval,
        };
        proof {
            assert(spacing == interval);
            assert((interval as i128) * (max_age as i128) <= (i64::MAX as i128) * (
            i32::MAX as i128) && 0 <= (interval as i128) * (max_age as i128))
                by (nonlinear_arith)
                requires
                    1 <= interval as i128 <= i64::MAX as i128,
                    0 <= max_age as i128 <= i32::MAX as i128,
            ;
        }
        let span: i128 = (spacing as i128) * (max_age as i128);
        let cutoff: i128 = end as i128 - span;
        let pruned = retain_right_of(&self.buffer, left, cutoff);
        self.buffer = pruned;
        proof {
            let n = out@.len() as int;
            assert(n >= 1);
            lemma_mul_succ(n - 1, ival);
            let x = end - start0 - 1;
            lemma_fundamental_div_mod_converse_div(x, ival, n - 1, x - (n - 1) * ival);
            assert(window_count(start0, end as int, ival) == n);
        }
        out
    }

    /// One resampling pass up to the current wall-clock instant.
    pub fn resample_now(&mut self) -> (out: Vec<S>)
        requires
            old(self).wf(),
            old(self).interval_spec() + crate::clock::CLOCK_MILLIS_BOUND <= i64::MAX,
        ensures
            exists|end: int|
                -crate::clock::CLOCK_MILLIS_BOUND < end < crate::clock::CLOCK_MILLIS_BOUND
                    && old(self).resample_post(*final(self), out@, end),
    {
        let end = crate::clock::now_millis();
        self.resample(end)
    }
}

} // verus!
