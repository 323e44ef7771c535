//! Scheduler metrics: moving averages of how long the event loop is polled
//! and how long blocking calls take.
use std::collections::HashMap;
use std::collections::VecDeque;
use std::rc::Rc;
use std::time::Instant;
use vstd::prelude::*;

verus! {

/// A span of time: whole seconds and the nanoseconds past them.
#[derive(Clone, Copy, Debug, PartialEq, Eq, Structural)]
pub struct Elapsed {
    pub secs: u64,
    pub nanos: u32,
}

pub const NANOS_PER_SEC: u64 = 1_000_000_000;

/// The longest span of time a `std::time::Duration` holds, plus one
/// nanosecond: `(u64::MAX + 1)` seconds.
pub open spec fn duration_limit_nanos() -> nat {
    ((u64::MAX as nat) + 1) * 1_000_000_000
}

impl Elapsed {
    /// Nanoseconds below one second, as `std::time::Duration` keeps them.
    pub open spec fn wf(self) -> bool {
        self.nanos < NANOS_PER_SEC
    }

    /// The span in nanoseconds.
    pub open spec fn total_nanos(self) -> nat {
        self.secs as nat * 1_000_000_000 + self.nanos as nat
    }
}

/// The sum, in nanoseconds, of the spans of a sequence.
pub open spec fn sum_nanos(s: Seq<Elapsed>) -> nat
    decreases s.len(),
{
    if s.len() == 0 {
        0
    } else {
        sum_nanos(s.drop_last()) + s.last().total_nanos()
    }
}

/// A prefix never sums to more than the whole sequence.
pub proof fn lemma_sum_nanos_prefix(s: Seq<Elapsed>, i: int)
    requires
        0 <= i <= s.len(),
    ensures
        sum_nanos(s.take(i)) <= sum_nanos(s),
    decreases s.len() - i,
{
    if i < s.len() {
        lemma_sum_nanos_prefix(s, i + 1);
        assert(s.take(i + 1).drop_last() =~= s.take(i));
    } else {
        assert(s.take(i) =~= s);
    }
}

/// Divides a span of time by a count: `<Duration as Div<u32>>::div`, which
/// panics on a zero divisor and otherwise computes the quotient at
/// nanosecond resolution, rounded down; the nanoseconds part of any
/// `Duration` is below one second.
#[verifier::external_body]
fn div_elapsed(e: Elapsed, divisor: u32) -> (r: Elapsed)
    requires
        e.wf(),
        divisor != 0,
    ensures
        r.total_nanos() == e.total_nanos() / (divisor as nat),
        r.wf(),
{
    let d = std::time::Duration::new(e.secs, e.nanos) / divisor;
    Elapsed { secs: d.as_secs(), nanos: d.subsec_nanos() }
}

#[verifier::external_type_specification]
#[verifier::external_body]
pub struct ExInstant(Instant);

/// The current instant, `std::time::Instant::now`. Nothing is promised of
/// the value: it depends on the clock.
#[verifier::external_body]
fn instant_now() -> Instant {
    Instant::now()
}

/// The time elapsed since `start`, `std::time::Instant::elapsed`. It depends
/// on the clock; only that its nanoseconds stay below one second is stated.
#[verifier::external_body]
fn elapsed_since(start: &Instant) -> (r: Elapsed)
    ensures
        r.wf(),
{
    let d = start.elapsed();
    Elapsed { secs: d.as_secs(), nanos: d.subsec_nanos() }
}

/// A quantity that is measured over a scope: a start is taken when the
/// scope is entered and turned into a sample when it is left.
pub trait Sample {
    type Start;
    type End;

    fn start() -> Self::Start;

    fn end(start: Self::Start) -> Self::End;
}

impl Sample for Elapsed {
    type Start = Instant;
    type End = Elapsed;

    fn start() -> Instant {
        instant_now()
    }

    fn end(start: Instant) -> (r: Elapsed)
        ensures
            r.wf(),
    {
        elapsed_since(&start)
    }
}

/// The moving average's contents: the samples kept, oldest first, and the
/// window it averages over.
pub struct MovingAvgView {
    pub history: Seq<Elapsed>,
    pub window: u32,
}

/// What recording `sample` does to `history` with this window: when the
/// history is as long as the window its oldest sample is dropped first.
pub open spec fn record(history: Seq<Elapsed>, window: u32, sample: Elapsed) -> Seq<Elapsed> {
    if history.len() == window as nat && history.len() > 0 {
        history.drop_first().push(sample)
    } else {
        history.push(sample)
    }
}

/// A moving average of spans of time over a window of samples.
pub struct MovingAvg {
    history: VecDeque<Elapsed>,
    window_size: (u32, usize),
}

impl View for MovingAvg {
    type V = MovingAvgView;

    closed spec fn view(&self) -> MovingAvgView {
        MovingAvgView { history: self.history@, window: self.window_size.0 }
    }
}

impl MovingAvg {
    /// Every sample kept is a well-formed span, and the window is kept both
    /// as given and as a length.
    #[verifier::type_invariant]
    spec fn inv(self) -> bool {
        &&& self.window_size.1 == self.window_size.0 as usize
        &&& forall|i: int| 0 <= i < self.history@.len() ==> (#[trigger] self.history@[i]).wf()
    }

    /// An empty moving average over `window_size` samples.
    pub fn new(window_size: u32) -> (r: Self)
        ensures
            r@.history == Seq::<Elapsed>::empty(),
            r@.window == window_size,
    {
        let window_size = (window_size, window_size as usize);
        MovingAvg { history: VecDeque::with_capacity(window_size.1), window_size }
    }

    /// Records a sample; once the window is full the oldest sample leaves.
    pub fn update(&mut self, sample: Elapsed)
        requires
            sample.wf(),
        ensures
            final(self)@.window == old(self)@.window,
            final(self)@.history == record(old(self)@.history, old(self)@.window, sample),
    {
        proof {
            use_type_invariant(&*self);
        }
        let mut history: VecDeque<Elapsed> = VecDeque::new();
        std::mem::swap(&mut history, &mut self.history);
        if history.len() == self.window_size.1 {
            history.pop_front();
        }
        history.push_back(sample);
        assert forall|i: int| 0 <= i < history@.len() implies (#[trigger] history@[i]).wf() by {
        }
        self.history = history;
    }

    /// The samples kept, oldest first.
    pub fn samples(&self) -> (r: Vec<Elapsed>)
        ensures
            r@ == self@.history,
    {
        let mut r: Vec<Elapsed> = Vec::new();
        let mut i: usize = 0;
        while i < self.history.len()
            invariant
                i <= self.history@.len(),
                r@ == self.history@.take(i as int),
            decreases self.history@.len() - i,
        {
            r.push(self.history[i]);
            assert(self.history@.take(i + 1) =~= self.history@.take(i as int).push(self.history@[i as int]));
            i = i + 1;
        }
        assert(self.history@.take(self.history@.len() as int) =~= self.history@);
        r
    }

    /// Starts measuring a scope; the guard records the elapsed time when
    /// it is finished. Only an explicit `finish` records: a guard that is
    /// dropped unfinished, or left behind by a panic, records nothing. The
    /// guard does not remember this average: `finish` records into whichever
    /// average it is given.
    pub fn update_guard(&self) -> (r: MovingAvgUpdateGuard) {
        MovingAvgUpdateGuard { sample: <Elapsed as Sample>::start() }
    }

    /// Runs `func`, recording how long it took. The time is recorded when
    /// `func` returns; if `func` panics, nothing is recorded.
    pub fn in_scope<F, R>(&mut self, func: F) -> (r: R)
        where
            F: FnOnce() -> R,
        requires
            func.requires(()),
        ensures
            func.ensures((), r),
            final(self)@.window == old(self)@.window,
            exists|s: Elapsed| s.wf() && final(self)@.history == record(old(self)@.history, old(self)@.window, s),
    {
        let guard = self.update_guard();
        let r = func();
        let _sample = guard.finish(self);
        r
    }

    /// The sum of the samples kept divided by the window. Dividing a
    /// `Duration` by zero panics, and so does a sum beyond what a
    /// `Duration` holds: both are left out.
    pub fn avg(&self) -> (r: Elapsed)
        requires
            self@.window != 0,
            sum_nanos(self@.history) < duration_limit_nanos(),
        ensures
            r.wf(),
            r.total_nanos() == sum_nanos(self@.history) / (self@.window as nat),
    {
        let n = self.history.len();
        let mut total: u128 = 0;
        let mut i: usize = 0;
        while i < n
            invariant
                n == self.history@.len(),
                i <= n,
                total == sum_nanos(self.history@.take(i as int)),
                sum_nanos(self.history@) < duration_limit_nanos(),
            decreases n - i,
        {
            let e = self.history[i];
            proof {
                lemma_sum_nanos_prefix(self.history@, i + 1);
                assert(self.history@.take(i + 1).drop_last() =~= self.history@.take(i as int));
            }
            total = total + (e.secs as u128) * 1_000_000_000 + e.nanos as u128;
            i = i + 1;
        }
        proof {
            assert(self.history@.take(n as int) =~= self.history@);
        }
        let secs = (total / 1_000_000_000) as u64;
        let nanos = (total % 1_000_000_000) as u32;
        div_elapsed(Elapsed { secs, nanos }, self.window_size.0)
    }
}

/// A measurement in progress for a moving average.
pub struct MovingAvgUpdateGuard {
    sample: Instant,
}

impl MovingAvgUpdateGuard {
    /// Ends the measurement and records the elapsed time in `scope`.
    pub fn finish(self, scope: &mut MovingAvg) -> (r: Elapsed)
        ensures
            r.wf(),
            final(scope)@.window == old(scope)@.window,
            final(scope)@.history == record(old(scope)@.history, old(scope)@.window, r),
    {
        let sample = <Elapsed as Sample>::end(self.sample);
        scope.update(sample);
        sample
    }
}

/// The scheduler's metrics of a runtime.
pub struct SchedMetric {
    pub poll_event_loop: MovingAvg,
    pub blocking_call: MovingAvg,
}

impl SchedMetric {
    /// The metrics of a runtime under these settings. Unless they are
    /// enabled there are none and `kept` stays as it is. Otherwise the
    /// metrics already kept for the runtime are handed back; when none are
    /// kept yet, two empty moving averages over the sample size (zero when
    /// it is not set) are made, kept and handed back.
    pub fn get(enabled: Option<bool>, sample_size: Option<u32>, kept: &mut Option<Rc<SchedMetric>>)
        -> (r: Option<Rc<SchedMetric>>)
        ensures
            r is Some <==> enabled == Some(true),
            enabled != Some(true) ==> *final(kept) == *old(kept),
            enabled == Some(true) && (*old(kept)) is Some ==> *final(kept) == *old(kept) && r == *old(kept),
            enabled == Some(true) && (*old(kept)) is None ==> *final(kept) == r && r is Some,
            enabled == Some(true) && (*old(kept)) is None ==> ({
                let m = r.unwrap();
                let size = match sample_size { Some(n) => n, None => 0u32 };
                &&& m.poll_event_loop@.history.len() == 0
                &&& m.blocking_call@.history.len() == 0
                &&& m.poll_event_loop@.window == size
                &&& m.blocking_call@.window == size
            }),
    {
        let enabled = match enabled { Some(b) => b, None => false };
        if !enabled {
            return None;
        }
        match kept {
            Some(m) => {
                return Some(m.clone());
            },
            None => {},
        }
        let sample_size = match sample_size { Some(n) => n, None => 0 };
        let metric = Rc::new(SchedMetric {
            poll_event_loop: MovingAvg::new(sample_size),
            blocking_call: MovingAvg::new(sample_size),
        });
        *kept = Some(metric.clone());
        Some(metric)
    }
}

/// The runtime futures marked so far and not yet finished, by key. Keys are
/// handed out from a counter that wraps around.
pub struct MarkedFutures<F> {
    counter: u64,
    futures: HashMap<u64, F>,
}

pub struct MarkedFuturesView<F> {
    pub counter: u64,
    pub futures: Map<u64, F>,
}

impl<F> View for MarkedFutures<F> {
    type V = MarkedFuturesView<F>;

    closed spec fn view(&self) -> MarkedFuturesView<F> {
        MarkedFuturesView { counter: self.counter, futures: self.futures@ }
    }
}

/// Every key in use was handed out before the counter's current value.
pub open spec fn keys_below_counter<F>(v: MarkedFuturesView<F>) -> bool {
    forall|k: u64| #[trigger] v.futures.contains_key(k) ==> k < v.counter
}

impl<F> MarkedFutures<F> {
    pub fn new() -> (r: Self)
        ensures
            r@.counter == 0,
            r@.futures == Map::<u64, F>::empty(),
    {
        MarkedFutures { counter: 0, futures: HashMap::new() }
    }

    /// Registers a future under the next key, which it returns.
    pub fn mark(&mut self, future: F) -> (key: u64)
        ensures
            key == old(self)@.counter,
            final(self)@.counter == old(self)@.counter.wrapping_add(1),
            final(self)@.futures == old(self)@.futures.insert(key, future),
    {
        let key = self.counter;
        self.counter = self.counter.wrapping_add(1);
        self.futures.insert(key, future);
        key
    }

    /// Removes the future registered under `key`, once it has finished.
    pub fn unmark(&mut self, key: u64) -> (r: Option<F>)
        ensures
            final(self)@.counter == old(self)@.counter,
            final(self)@.futures == old(self)@.futures.remove(key),
            r is Some <==> old(self)@.futures.contains_key(key),
            r matches Some(f) ==> f == old(self)@.futures[key],
    {
        self.futures.remove(&key)
    }

    /// The futures registered now, by key.
    pub fn futures(&self) -> (r: &HashMap<u64, F>)
        ensures
            r@ == self@.futures,
    {
        &self.futures
    }
}

/// Until the counter wraps, marking hands out a key no future holds, and
/// removing that key again leaves exactly the futures there were before.
pub proof fn lemma_mark_then_unmark<F>(v: MarkedFuturesView<F>, future: F)
    requires
        keys_below_counter(v),
        v.counter < u64::MAX,
    ensures
        !v.futures.contains_key(v.counter),
        keys_below_counter(MarkedFuturesView {
            counter: v.counter.wrapping_add(1),
            futures: v.futures.insert(v.counter, future),
        }),
        v.futures.insert(v.counter, future).remove(v.counter) == v.futures,
{
    assert(v.futures.insert(v.counter, future).remove(v.counter) =~= v.futures);
}

/// The history after recording `samples` in order into an empty average.
pub open spec fn record_all(window: u32, samples: Seq<Elapsed>) -> Seq<Elapsed>
    decreases samples.len(),
{
    if samples.len() == 0 {
        Seq::empty()
    } else {
        record(record_all(window, samples.drop_last()), window, samples.last())
    }
}

/// With a non-zero window, a moving average holds exactly the last `window`
/// samples recorded (all of them while there are fewer), oldest first.
pub proof fn lemma_keeps_last_window(window: u32, samples: Seq<Elapsed>)
    requires
        window > 0,
    ensures
        record_all(window, samples) == samples.skip(
            if samples.len() > window { samples.len() - window } else { 0 },
        ),
    decreases samples.len(),
{
    if samples.len() == 0 {
        assert(samples.skip(0) =~= samples);
    } else {
        let init = samples.drop_last();
        lemma_keeps_last_window(window, init);
        let kept = record_all(window, init);
        let d: int = if init.len() > window { init.len() - window } else { 0 };
        assert(kept == init.skip(d));
        if init.len() >= window {
            assert(kept.len() == window);
            assert(kept.drop_first().push(samples.last()) =~= samples.skip(samples.len() - window));
        } else {
            assert(kept.push(samples.last()) =~= samples.skip(0));
        }
    }
}

/// With a window of zero no sample is ever dropped.
pub proof fn lemma_zero_window_keeps_all(samples: Seq<Elapsed>)
    ensures
        record_all(0, samples) == samples,
    decreases samples.len(),
{
    if samples.len() > 0 {
        lemma_zero_window_keeps_all(samples.drop_last());
        if samples.len() == 1 {
            assert(record_all(0, samples.drop_last()) =~= Seq::<Elapsed>::empty());
        }
        assert(samples.drop_last().push(samples.last()) =~= samples);
    }
}

} // verus!
