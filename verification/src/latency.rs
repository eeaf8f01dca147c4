//! Measuring how long a call takes.

use self::clock::{Event, Journal};
use std::time::{Duration, Instant};
use vstd::prelude::*;

pub mod clock;

verus! {

/// A point on the system's monotonic clock.
#[verifier::external_type_specification]
#[verifier::external_body]
pub struct ExInstant(Instant);

/// Calls made before the first one that is timed.
pub const WARM_UP: usize = 5;

/// Timed calls before outliers are looked for.
pub const MIN_ITERATIONS: usize = 10;

/// Timed calls after which measuring ends in any case.
pub const MAX_ITERATIONS: usize = 200;

/// How long a call takes on average.
#[derive(Debug)]
pub struct LatencyMeasurement {
    pub latency: Duration,
}

/// The time, from `Instant::now`. Nothing is promised of it.
#[verifier::external_body]
fn now() -> (r: Instant) {
    Instant::now()
}

/// The time since `start`, from `Instant::elapsed`. Nothing is promised of it.
#[verifier::external_body]
fn elapsed(start: &Instant) -> (r: Duration) {
    start.elapsed()
}

/// What a measurement does next.
#[derive(Debug, Clone, Copy, PartialEq, Eq, Structural)]
pub enum Turn {
    /// Make a call without timing it.
    WarmUp,
    /// Make a call and record how long it took.
    Timed,
    /// Average what has been recorded.
    Done,
}

/// A measurement under way.
#[derive(Debug)]
pub struct LatencyRun {
    /// How many calls have warmed up.
    pub warmed: usize,
    /// How many calls have been timed.
    pub timed: usize,
    /// The times that stand, in the order they were taken.
    pub samples: Vec<Duration>,
    /// No more calls are needed.
    pub over: bool,
}

impl LatencyRun {
    /// Calls are timed once the warm-up is over, the first ten are all kept, and
    /// the last one that is allowed ends the measurement.
    pub open spec fn wf(self) -> bool {
        &&& self.warmed <= WARM_UP
        &&& self.warmed < WARM_UP ==> self.timed == 0
        &&& self.timed <= MAX_ITERATIONS
        &&& self.timed <= MIN_ITERATIONS ==> !self.over
        &&& self.timed == MAX_ITERATIONS ==> self.over
    }

    /// Before the first call.
    pub open spec fn is_fresh(self) -> bool {
        self.warmed == 0 && self.timed == 0 && self.samples@.len() == 0 && !self.over
    }

    /// What is next.
    pub open spec fn turn(self) -> Turn {
        if self.warmed < WARM_UP {
            Turn::WarmUp
        } else if self.over {
            Turn::Done
        } else {
            Turn::Timed
        }
    }

    /// Whether `after` is the measurement with one more call to warm up.
    pub open spec fn warmed_to(self, after: LatencyRun) -> bool {
        after == (LatencyRun { warmed: (self.warmed + 1) as usize, ..self })
    }

    /// Whether `after` is the measurement with one more time. The first ten are
    /// merely kept. From then on `retain` drops the outliers, and the measurement
    /// is over as soon as more than ten times are left and `stable` accepts them,
    /// or when there have been enough calls.
    pub open spec fn recorded<
        R: Fn(&Vec<Duration>) -> Vec<Duration>,
        S: Fn(&Vec<Duration>) -> bool,
    >(self, sample: Duration, after: LatencyRun, retain: R, stable: S) -> bool {
        &&& after.warmed == self.warmed
        &&& after.timed == self.timed + 1
        &&& if self.timed < MIN_ITERATIONS {
            after.samples@ == self.samples@.push(sample) && !after.over
        } else {
            &&& exists|all: Vec<Duration>|
                all@ == self.samples@.push(sample) && #[trigger] call_ensures(
                    retain,
                    (&all,),
                    after.samples,
                )
            &&& if after.samples@.len() > MIN_ITERATIONS {
                exists|accepted: bool| #[trigger]
                    call_ensures(stable, (&after.samples,), accepted) && after.over == (accepted
                        || after.timed == MAX_ITERATIONS)
            } else {
                after.over == (after.timed == MAX_ITERATIONS)
            }
        }
    }

    /// A measurement before the first call.
    pub fn new() -> (r: Self)
        ensures
            r.wf(),
            r.is_fresh(),
    {
        LatencyRun { warmed: 0, timed: 0, samples: Vec::new(), over: false }
    }

    /// What to do next.
    pub fn next(&self) -> (r: Turn)
        ensures
            r == self.turn(),
    {
        if self.warmed < WARM_UP {
            Turn::WarmUp
        } else if self.over {
            Turn::Done
        } else {
            Turn::Timed
        }
    }

    /// Notes a call that was made to warm up.
    pub fn warm(&mut self)
        requires
            old(self).wf(),
            old(self).turn() is WarmUp,
        ensures
            final(self).wf(),
            old(self).warmed_to(*final(self)),
    {
        self.warmed = self.warmed + 1;
    }

    /// Notes how long a call took, and returns whether that was the last.
    pub fn record<R: Fn(&Vec<Duration>) -> Vec<Duration>, S: Fn(&Vec<Duration>) -> bool>(
        &mut self,
        sample: Duration,
        retain: &R,
        stable: &S,
    ) -> (over: bool)
        requires
            old(self).wf(),
            old(self).turn() is Timed,
            forall|v: &Vec<Duration>| call_requires(*retain, (v,)),
            forall|v: &Vec<Duration>| call_requires(*stable, (v,)),
        ensures
            final(self).wf(),
            over == final(self).over,
            old(self).recorded(sample, *final(self), *retain, *stable),
    {
        let first_ones = self.timed < MIN_ITERATIONS;
        self.samples.push(sample);
        self.timed = self.timed + 1;
        if first_ones {
            return false;
        }
        let ghost all = self.samples;
        assert(all@ == old(self).samples@.push(sample));
        self.samples = (*retain)(&self.samples);
        assert(call_ensures(*retain, (&all,), self.samples));
        self.over = self.timed == MAX_ITERATIONS;
        if self.samples.len() > MIN_ITERATIONS {
            let accepted = (*stable)(&self.samples);
            assert(call_ensures(*stable, (&self.samples,), accepted));
            self.over = self.over || accepted;
            assert(self.over == (accepted || self.timed == MAX_ITERATIONS));
        }
        assert(old(self).recorded(sample, *self, *retain, *stable));
        self.over
    }
}

/// Whether `states` is a measurement from its start to its end, with a call of
/// `f` for every step of it.
pub open spec fn measured<
    T,
    F: Fn() -> T,
    R: Fn(&Vec<Duration>) -> Vec<Duration>,
    S: Fn(&Vec<Duration>) -> bool,
>(states: Seq<LatencyRun>, outputs: Seq<T>, f: F, retain: R, stable: S) -> bool {
    &&& states.len() == outputs.len() + 1
    &&& states[0].is_fresh()
    &&& states.last().turn() is Done
    &&& forall|k: int|
        #![trigger outputs[k]]
        0 <= k < outputs.len() ==> called(states[k], outputs[k], states[k + 1], f, retain, stable)
}

/// Whether the clock may show this.
pub closed spec fn read_off(start: Instant) -> bool {
    call_ensures(now, (), start)
}

/// Whether the clock may show this much time since it showed `start`.
pub closed spec fn passed(start: Instant, span: Duration) -> bool {
    call_ensures(elapsed, (&start,), span)
}

/// Whether a time is what the clock shows at one reading since an earlier one.
pub closed spec fn clocked(sample: Duration) -> bool {
    exists|start: Instant| #[trigger]
        call_ensures(now, (), start) && call_ensures(elapsed, (&start,), sample)
}

/// Whether the events from `at` on are one timed call: the clock is read, the call
/// is made and returns `output`, and the clock says that `sample` has passed since
/// that very reading.
pub open spec fn timed_at<T>(events: Seq<Event<T>>, at: int, output: T, sample: Duration) -> bool {
    &&& 0 <= at && at + 2 < events.len()
    &&& events[at] matches Event::Read(start) && events[at + 2] == (Event::<T>::Elapsed {
        since: at as nat,
        start,
        span: sample,
    }) && read_off(start) && passed(start, sample)
    &&& events[at + 1] == Event::Called(output)
}

/// Whether the timed call with index `j` of a measurement is the one that the
/// events show in that place: after the calls that warmed up and three events for
/// each timed call before it. The time that the events show is the one recorded.
pub open spec fn timed_call<
    T,
    R: Fn(&Vec<Duration>) -> Vec<Duration>,
    S: Fn(&Vec<Duration>) -> bool,
>(
    events: Seq<Event<T>>,
    states: Seq<LatencyRun>,
    outputs: Seq<T>,
    retain: R,
    stable: S,
    j: int,
) -> bool {
    exists|sample: Duration|
        timed_at(events, WARM_UP + 3 * j, outputs[WARM_UP + j], sample) && #[trigger] states[WARM_UP
            + j].recorded(sample, states[WARM_UP + j + 1], retain, stable)
}

/// Whether `events` is all that happened while these states were gone through:
/// the calls that warmed up, and then the timed calls, one after the other.
pub open spec fn journalled<
    T,
    R: Fn(&Vec<Duration>) -> Vec<Duration>,
    S: Fn(&Vec<Duration>) -> bool,
>(
    events: Seq<Event<T>>,
    states: Seq<LatencyRun>,
    outputs: Seq<T>,
    retain: R,
    stable: S,
) -> bool {
    let (warmed, timed) = (states.last().warmed, states.last().timed);
    &&& states.len() == outputs.len() + 1
    &&& outputs.len() == warmed + timed
    &&& events.len() == warmed + 3 * timed
    &&& forall|k: int| 0 <= k < warmed ==> #[trigger] events[k] == Event::Called(outputs[k])
    &&& forall|j: int|
        0 <= j < timed ==> #[trigger] timed_call(events, states, outputs, retain, stable, j)
}

/// Makes one timed call: the clock is read right before it and right after it.
fn time<T, F: Fn() -> T>(journal: &mut Journal<T, F>) -> (r: (T, Duration))
    requires
        call_requires(old(journal).f(), ()),
    ensures
        final(journal).f() == old(journal).f(),
        final(journal).events().len() == old(journal).events().len() + 3,
        final(journal).events().take(old(journal).events().len() as int) == old(journal).events(),
        timed_at(final(journal).events(), old(journal).events().len() as int, r.0, r.1),
        call_ensures(old(journal).f(), (), r.0),
        clocked(r.1),
{
    let ghost earlier = journal.events();
    let reading = journal.read();
    let output = journal.call();
    let sample = journal.since(&reading);
    assert(journal.events().take(earlier.len() as int) =~= earlier);
    assert(call_ensures(now, (), reading.start()));
    (output, sample)
}

/// Whether a call of `f` that returned `output` took the measurement from one
/// state to the next.
pub open spec fn called<
    T,
    F: Fn() -> T,
    R: Fn(&Vec<Duration>) -> Vec<Duration>,
    S: Fn(&Vec<Duration>) -> bool,
>(before: LatencyRun, output: T, after: LatencyRun, f: F, retain: R, stable: S) -> bool {
    &&& call_ensures(f, (), output)
    &&& match before.turn() {
        Turn::WarmUp => before.warmed_to(after),
        Turn::Timed => exists|sample: Duration| #[trigger]
            before.recorded(sample, after, retain, stable) && clocked(sample),
        Turn::Done => false,
    }
}

/// Calls `f` until the time it takes is stable, and returns the average.
///
/// The first five calls only warm up. Then up to two hundred calls are timed.
/// From the eleventh on, `retain` drops the outliers among the samples so far,
/// and measuring ends as soon as more than ten samples are left and `stable`
/// accepts them. `mean` averages the samples that are left in the end.
///
/// Each sample is what the clock shows right after a call, since a reading right
/// before it. How long that is depends on the machine, so nothing is said here of
/// its length; [`LatencyRun`] says what becomes of each sample.
pub fn measure_latency<
    T,
    F: Fn() -> T,
    R: Fn(&Vec<Duration>) -> Vec<Duration>,
    S: Fn(&Vec<Duration>) -> bool,
    M: Fn(&Vec<Duration>) -> Duration,
>(f: F, retain: R, stable: S, mean: M) -> (r: LatencyMeasurement)
    requires
        call_requires(f, ()),
        forall|v: &Vec<Duration>| call_requires(retain, (v,)),
        forall|v: &Vec<Duration>| call_requires(stable, (v,)),
        forall|v: &Vec<Duration>| call_requires(mean, (v,)),
    ensures
        exists|states: Seq<LatencyRun>, outputs: Seq<T>, journal: Journal<T, F>|
            #![trigger measured(states, outputs, f, retain, stable), journal.events()]
            {
                &&& measured(states, outputs, f, retain, stable)
                &&& journalled(journal.events(), states, outputs, retain, stable)
                &&& journal.f() == f
                &&& call_ensures(mean, (&states.last().samples,), r.latency)
            },
{
    let mut journal = Journal::new(f);
    let mut run = LatencyRun::new();
    let ghost mut states: Seq<LatencyRun> = seq![run];
    let ghost mut outputs: Seq<T> = Seq::empty();
    let mut turn = run.next();
    while turn != Turn::Done
        invariant
            journal.f() == f,
            call_requires(f, ()),
            forall|v: &Vec<Duration>| call_requires(retain, (v,)),
            forall|v: &Vec<Duration>| call_requires(stable, (v,)),
            run.wf(),
            turn == run.turn(),
            states[0].is_fresh(),
            states.last() == run,
            journalled(journal.events(), states, outputs, retain, stable),
            forall|k: int|
                #![trigger outputs[k]]
                0 <= k < outputs.len() ==> called(
                    states[k],
                    outputs[k],
                    states[k + 1],
                    f,
                    retain,
                    stable,
                ),
        decreases WARM_UP - run.warmed + MAX_ITERATIONS - run.timed,
    {
        let ghost (before, states_before, outputs_before) = (run, states, outputs);
        let ghost events_before = journal.events();
        let ghost output: T;
        if turn == Turn::WarmUp {
            let returned = journal.call();
            run.warm();
            proof {
                output = returned;
            }
        } else {
            let (returned, sample) = time(&mut journal);
            run.record(sample, &retain, &stable);
            assert(before.recorded(sample, run, retain, stable));
            proof {
                output = returned;
            }
        }
        proof {
            states = states_before.push(run);
            outputs = outputs_before.push(output);
            assert(called(before, output, run, f, retain, stable));
            assert forall|k: int| #![trigger outputs[k]] 0 <= k < outputs.len() implies called(
                states[k],
                outputs[k],
                states[k + 1],
                f,
                retain,
                stable,
            ) by {
                if k < outputs_before.len() {
                    assert(outputs[k] == outputs_before[k]);
                    assert(states[k] == states_before[k]);
                    assert(states[k + 1] == states_before[k + 1]);
                } else {
                    assert(states[k] == before);
                }
            }
            let events = journal.events();
            assert forall|k: int| 0 <= k < events_before.len() implies #[trigger] events[k]
                == events_before[k] by {
                assert(events.take(events_before.len() as int)[k] == events[k]);
            }
            assert forall|k: int| 0 <= k < run.warmed implies #[trigger] events[k] == Event::Called(
                outputs[k],
            ) by {
                if k < before.warmed {
                    assert(events_before[k] == Event::Called(outputs_before[k]));
                }
            }
            assert forall|j: int| 0 <= j < run.timed implies #[trigger] timed_call(
                events,
                states,
                outputs,
                retain,
                stable,
                j,
            ) by {
                if j < before.timed {
                    assert(timed_call(
                        events_before,
                        states_before,
                        outputs_before,
                        retain,
                        stable,
                        j,
                    ));
                    let at = WARM_UP + 3 * j;
                    assert(events[at] == events_before[at]);
                    assert(events[at + 1] == events_before[at + 1]);
                    assert(events[at + 2] == events_before[at + 2]);
                    assert(states[WARM_UP + j] == states_before[WARM_UP + j]);
                    assert(states[WARM_UP + j + 1] == states_before[WARM_UP + j + 1]);
                } else {
                    assert(states[WARM_UP + j] == before);
                    assert(states[WARM_UP + j + 1] == run);
                }
            }
        }
        turn = run.next();
    }
    let latency = mean(&run.samples);
    assert(measured(states, outputs, f, retain, stable));
    LatencyMeasurement { latency }
}

/// A measurement makes five calls to warm up and then times eleven at least and
/// two hundred at most, whatever the clock shows and whatever is made of it.
pub proof fn law_number_of_calls<
    T,
    F: Fn() -> T,
    R: Fn(&Vec<Duration>) -> Vec<Duration>,
    S: Fn(&Vec<Duration>) -> bool,
>(states: Seq<LatencyRun>, outputs: Seq<T>, f: F, retain: R, stable: S)
    requires
        measured(states, outputs, f, retain, stable),
    ensures
        states.last().warmed == WARM_UP,
        MIN_ITERATIONS < states.last().timed <= MAX_ITERATIONS,
        outputs.len() == states.last().warmed + states.last().timed,
        WARM_UP + MIN_ITERATIONS < outputs.len() <= WARM_UP + MAX_ITERATIONS,
{
    lemma_calls_so_far(states, outputs, f, retain, stable, outputs.len());
}

proof fn lemma_calls_so_far<
    T,
    F: Fn() -> T,
    R: Fn(&Vec<Duration>) -> Vec<Duration>,
    S: Fn(&Vec<Duration>) -> bool,
>(states: Seq<LatencyRun>, outputs: Seq<T>, f: F, retain: R, stable: S, n: nat)
    requires
        measured(states, outputs, f, retain, stable),
        n <= outputs.len(),
    ensures
        states[n as int].wf(),
        states[n as int].warmed + states[n as int].timed == n,
    decreases n,
{
    if n > 0 {
        lemma_calls_so_far(states, outputs, f, retain, stable, (n - 1) as nat);
        let before = states[n - 1];
        assert(called(before, outputs[n - 1], states[n as int], f, retain, stable));
        if before.turn() is Timed {
            let sample = choose|sample: Duration| #[trigger]
                before.recorded(sample, states[n as int], retain, stable);
            assert(before.recorded(sample, states[n as int], retain, stable));
        }
    }
}

/// Where no outliers are dropped, the eleventh time is the last if it and those
/// before it are found stable, and without that the two hundredth is.
pub proof fn law_stable_times_end_it<
    R: Fn(&Vec<Duration>) -> Vec<Duration>,
    S: Fn(&Vec<Duration>) -> bool,
>(run: LatencyRun, sample: Duration, after: LatencyRun, retain: R, stable: S, accepts: bool)
    requires
        run.wf(),
        run.turn() is Timed,
        run.recorded(sample, after, retain, stable),
        run.samples@.len() == run.timed,
        forall|all: &Vec<Duration>, kept: Vec<Duration>|
            call_ensures(retain, (all,), kept) ==> kept@ == all@,
        forall|all: &Vec<Duration>, accepted: bool|
            call_ensures(stable, (all,), accepted) ==> accepted == accepts,
    ensures
        after.samples@ == run.samples@.push(sample),
        after.samples@.len() == after.timed,
        after.over == (after.timed == MAX_ITERATIONS || (accepts && after.timed > MIN_ITERATIONS)),
{
}

/// Whether every time that the clock was asked for covers one call and nothing
/// else: it is asked right after a call, for the time since a reading right before
/// that call. So no two such times overlap, and what happened before the reading
/// is in none of them.
pub open spec fn each_covers_one_call<T>(events: Seq<Event<T>>) -> bool {
    &&& forall|i: int|
        #![trigger events[i]]
        0 <= i < events.len() ==> (events[i] matches Event::Elapsed { since, start, span } ==> {
            &&& i >= 2 && since == i - 2
            &&& events[i - 2] == Event::<T>::Read(start) && read_off(start)
            &&& events[i - 1] is Called
            &&& passed(start, span)
        })
    &&& forall|i: int, j: int|
        #![trigger events[i], events[j]]
        0 <= i < j < events.len() && events[i] is Elapsed && events[j] is Elapsed ==> i
            < events[j]->since
}

/// Whether the events show five calls that are not timed and then a timed call for
/// each further output, with the time that is recorded for it, and nothing else.
pub open spec fn one_time_for_each_call<
    T,
    R: Fn(&Vec<Duration>) -> Vec<Duration>,
    S: Fn(&Vec<Duration>) -> bool,
>(
    events: Seq<Event<T>>,
    states: Seq<LatencyRun>,
    outputs: Seq<T>,
    retain: R,
    stable: S,
) -> bool {
    &&& states.len() == outputs.len() + 1
    &&& events.len() == 3 * outputs.len() - 10
    &&& each_covers_one_call(events)
    &&& forall|k: int| 0 <= k < 5 ==> #[trigger] events[k] == Event::Called(outputs[k])
    &&& forall|k: int|
        #![trigger outputs[k]]
        5 <= k < outputs.len() ==> {
            &&& events[3 * k - 9] == Event::Called(outputs[k])
            &&& events[3 * k - 8] is Elapsed
            &&& states[k].recorded(events[3 * k - 8]->span, states[k + 1], retain, stable)
        }
}

/// Each sample is the time of one call. A measurement makes five calls that are
/// not timed and then more than ten and at most two hundred that are. The clock is
/// read anew right before each of those, and the sample that is recorded for it is
/// what the clock shows right after it, since that reading. The samples that are
/// left in the end are what is averaged.
pub proof fn law_each_sample_times_one_call<
    T,
    F: Fn() -> T,
    R: Fn(&Vec<Duration>) -> Vec<Duration>,
    S: Fn(&Vec<Duration>) -> bool,
    M: Fn(&Vec<Duration>) -> Duration,
>(f: F, retain: R, stable: S, mean: M, r: LatencyMeasurement)
    requires
        call_ensures(measure_latency::<T, F, R, S, M>, (f, retain, stable, mean), r),
    ensures
        exists|states: Seq<LatencyRun>, outputs: Seq<T>, journal: Journal<T, F>|
            #![trigger measured(states, outputs, f, retain, stable), journal.events()]
            {
                &&& measured(states, outputs, f, retain, stable)
                &&& journal.f() == f
                &&& 15 < outputs.len() <= 205
                &&& one_time_for_each_call(journal.events(), states, outputs, retain, stable)
                &&& call_ensures(mean, (&states.last().samples,), r.latency)
            },
{
    let (states, outputs, journal) = choose|
        states: Seq<LatencyRun>,
        outputs: Seq<T>,
        journal: Journal<T, F>,
    |
        #![trigger measured(states, outputs, f, retain, stable), journal.events()]
        {
            &&& measured(states, outputs, f, retain, stable)
            &&& journalled(journal.events(), states, outputs, retain, stable)
            &&& journal.f() == f
            &&& call_ensures(mean, (&states.last().samples,), r.latency)
        };
    law_number_of_calls(states, outputs, f, retain, stable);
    lemma_one_time_for_each_call(journal.events(), states, outputs, retain, stable);
    assert(measured(states, outputs, f, retain, stable));
}

proof fn lemma_one_time_for_each_call<
    T,
    R: Fn(&Vec<Duration>) -> Vec<Duration>,
    S: Fn(&Vec<Duration>) -> bool,
>(events: Seq<Event<T>>, states: Seq<LatencyRun>, outputs: Seq<T>, retain: R, stable: S)
    requires
        journalled(events, states, outputs, retain, stable),
        states.last().warmed == 5,
    ensures
        one_time_for_each_call(events, states, outputs, retain, stable),
{
    lemma_each_covers_one_call(events, states, outputs, retain, stable);
    assert forall|k: int| #![trigger outputs[k]] 5 <= k < outputs.len() implies {
        &&& events[3 * k - 9] == Event::Called(outputs[k])
        &&& events[3 * k - 8] is Elapsed
        &&& states[k].recorded(events[3 * k - 8]->span, states[k + 1], retain, stable)
    } by {
        lemma_timed_call(events, states, outputs, retain, stable, k);
    }
}

proof fn lemma_timed_call<
    T,
    R: Fn(&Vec<Duration>) -> Vec<Duration>,
    S: Fn(&Vec<Duration>) -> bool,
>(
    events: Seq<Event<T>>,
    states: Seq<LatencyRun>,
    outputs: Seq<T>,
    retain: R,
    stable: S,
    k: int,
)
    requires
        journalled(events, states, outputs, retain, stable),
        states.last().warmed == 5,
        5 <= k < outputs.len(),
    ensures
        events[3 * k - 9] == Event::Called(outputs[k]),
        events[3 * k - 8] is Elapsed,
        states[k].recorded(events[3 * k - 8]->span, states[k + 1], retain, stable),
{
    let j = k - 5;
    assert(timed_call(events, states, outputs, retain, stable, j));
    let sample = choose|sample: Duration|
        timed_at(events, WARM_UP + 3 * j, outputs[WARM_UP + j], sample) && #[trigger] states[WARM_UP
            + j].recorded(sample, states[WARM_UP + j + 1], retain, stable);
    assert(timed_at(events, WARM_UP + 3 * j, outputs[WARM_UP + j], sample));
    assert(WARM_UP + 3 * j + 1 == 3 * k - 9);
    assert(WARM_UP + 3 * j + 2 == 3 * k - 8);
    assert(WARM_UP + j == k);
}

proof fn lemma_event_at<
    T,
    R: Fn(&Vec<Duration>) -> Vec<Duration>,
    S: Fn(&Vec<Duration>) -> bool,
>(
    events: Seq<Event<T>>,
    states: Seq<LatencyRun>,
    outputs: Seq<T>,
    retain: R,
    stable: S,
    i: int,
)
    requires
        journalled(events, states, outputs, retain, stable),
        states.last().warmed == 5,
        0 <= i < events.len(),
    ensures
        events[i] matches Event::Elapsed { since, start, span } ==> {
            &&& i >= 2 && since == i - 2
            &&& events[i - 2] == Event::<T>::Read(start) && read_off(start)
            &&& events[i - 1] is Called
            &&& passed(start, span)
        },
{
    if i < 5 {
        assert(events[i] == Event::Called(outputs[i]));
    } else {
        let j = (i - 5) / 3;
        assert(timed_call(events, states, outputs, retain, stable, j));
        let at = WARM_UP + 3 * j;
        assert(i == at || i == at + 1 || i == at + 2);
    }
}

proof fn lemma_each_covers_one_call<
    T,
    R: Fn(&Vec<Duration>) -> Vec<Duration>,
    S: Fn(&Vec<Duration>) -> bool,
>(events: Seq<Event<T>>, states: Seq<LatencyRun>, outputs: Seq<T>, retain: R, stable: S)
    requires
        journalled(events, states, outputs, retain, stable),
        states.last().warmed == 5,
    ensures
        each_covers_one_call(events),
{
    assert forall|i: int| #![trigger events[i]] 0 <= i < events.len() implies (
    events[i] matches Event::Elapsed { since, start, span } ==> {
        &&& i >= 2 && since == i - 2
        &&& events[i - 2] == Event::<T>::Read(start) && read_off(start)
        &&& events[i - 1] is Called
        &&& passed(start, span)
    }) by {
        lemma_event_at(events, states, outputs, retain, stable, i);
    }
    assert forall|i: int, j: int|
        #![trigger events[i], events[j]]
        0 <= i < j < events.len() && events[i] is Elapsed && events[j] is Elapsed implies i
        < events[j]->since by {
        lemma_event_at(events, states, outputs, retain, stable, j);
        assert(events[j - 1] is Called && events[j - 2] is Read);
    }
}

/// What the clock shows at one reading, and then as the time since that, is a time
/// that it showed.
pub proof fn law_a_time_since_a_reading_is_clocked(start: Instant, span: Duration)
    requires
        read_off(start),
        passed(start, span),
    ensures
        clocked(span),
{
}

/// A time that is recorded becomes the last sample. The first ten stay as they
/// are; from the eleventh on, what is kept is what `retain` makes of them all. The
/// measurement goes on through the tenth, ends with the two hundredth, and in
/// between ends exactly when more than ten are left and `stable` accepts them.
pub proof fn law_times_are_recorded<
    R: Fn(&Vec<Duration>) -> Vec<Duration>,
    S: Fn(&Vec<Duration>) -> bool,
>(run: &mut LatencyRun, sample: Duration, retain: R, stable: S, over: bool)
    requires
        call_ensures(LatencyRun::record::<R, S>, (run, sample, &retain, &stable), over),
    ensures
        ({
            let (before, after) = (*old(run), *final(run));
            let kept = after.samples;
            &&& over == after.over
            &&& after.warmed == before.warmed
            &&& after.timed == before.timed + 1
            &&& before.timed < 10 ==> !over && kept@ == before.samples@.push(sample)
            &&& before.timed >= 10 ==> exists|all: Vec<Duration>|
                all@ == before.samples@.push(sample) && #[trigger] call_ensures(
                    retain,
                    (&all,),
                    kept,
                )
            &&& before.timed >= 10 && over ==> before.timed == 199 || (kept@.len() > 10
                && call_ensures(stable, (&kept,), true))
            &&& before.timed >= 10 && !over ==> before.timed != 199 && (kept@.len() <= 10
                || call_ensures(stable, (&kept,), false))
        }),
{
}

/// A call to warm up is counted and changes nothing else, and there are five of
/// them before the first that is timed; a measurement is done when it is over.
pub proof fn law_warming_up_comes_first(run: &mut LatencyRun, any: LatencyRun, turn: Turn)
    requires
        old(run).warmed < 5,
        call_ensures(LatencyRun::warm, (run,), ()),
        call_ensures(LatencyRun::next, (&any,), turn),
    ensures
        final(run).warmed == old(run).warmed + 1,
        final(run).timed == old(run).timed,
        final(run).samples == old(run).samples,
        final(run).over == old(run).over,
        turn is WarmUp <==> any.warmed < 5,
        turn is Done <==> any.warmed >= 5 && any.over,
        turn is Timed <==> any.warmed >= 5 && !any.over,
{
}

/// A measurement starts with nothing counted and nothing recorded.
pub proof fn law_a_measurement_starts_empty(run: LatencyRun)
    requires
        call_ensures(LatencyRun::new, (), run),
    ensures
        run.warmed == 0,
        run.timed == 0,
        run.samples@.len() == 0,
        !run.over,
{
}

} // verus!
