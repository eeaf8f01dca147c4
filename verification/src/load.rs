//! Closed-loop HTTP load generator: what each connection sends, which replies
//! count, and what a run adds up to.

use crate::content;
use crate::status;
use crate::text;
use bytes::Bytes;
use vstd::prelude::*;
use vstd::multiset::Multiset;

verus! {

/// What to hammer the server with.
#[derive(Debug, Clone)]
pub struct LoadSpec {
    pub host: String,
    pub port: u16,
    pub path: String,
    /// Request bodies to send. Empty means `GET`.
    pub body: Bytes,
    pub connections: usize,
    /// How long to go on for, in nanoseconds.
    pub duration_ns: u128,
}

/// What a [`LoadSpec`] says.
#[verifier::ext_equal]
pub struct LoadView {
    pub host: Seq<char>,
    pub port: u16,
    pub path: Seq<char>,
    pub body: Seq<u8>,
    pub connections: usize,
    pub duration_ns: u128,
}

impl View for LoadSpec {
    type V = LoadView;

    open spec fn view(&self) -> LoadView {
        LoadView {
            host: self.host@,
            port: self.port,
            path: self.path@,
            body: content::bytes_of(self.body),
            connections: self.connections,
            duration_ns: self.duration_ns,
        }
    }
}

impl LoadView {
    /// The host and port, as in a `Host` header.
    pub open spec fn authority(self) -> Seq<char> {
        self.host + ":"@ + text::decimal(self.port as nat)
    }

    /// The load that merely asks whether the server answers: one request without
    /// a body.
    pub open spec fn probe(self) -> LoadView {
        LoadView { connections: 1, duration_ns: 0, body: Seq::empty(), ..self }
    }
}

impl LoadSpec {
    /// The host and port to connect to, as in a `Host` header.
    pub fn authority(&self) -> (r: String)
        ensures
            r@ == self@.authority(),
    {
        let mut out = self.host.clone();
        out.append(":");
        text::push_decimal(&mut out, self.port as u64);
        out
    }

    /// Whether requests are sent with `POST`, because they have a body, rather
    /// than with `GET`.
    pub fn posts(&self) -> (r: bool)
        ensures
            r == (self@.body.len() > 0),
    {
        content::length(&self.body) > 0
    }

    /// How many connections to open: at least one.
    pub fn connection_count(&self) -> (r: usize)
        ensures
            r == if self.connections == 0 {
                1
            } else {
                self.connections
            },
    {
        if self.connections == 0 {
            1
        } else {
            self.connections
        }
    }

    /// The load that merely asks whether the server answers.
    pub fn probe(&self) -> (r: LoadSpec)
        ensures
            r@ == self@.probe(),
    {
        LoadSpec {
            host: self.host.clone(),
            port: self.port,
            path: self.path.clone(),
            body: content::empty(),
            connections: 1,
            duration_ns: 0,
        }
    }

    /// The same load for another while.
    pub fn lasting(&self, duration_ns: u128) -> (r: LoadSpec)
        ensures
            r@ == (LoadView { duration_ns, ..self@ }),
    {
        LoadSpec {
            host: self.host.clone(),
            port: self.port,
            path: self.path.clone(),
            body: self.body.clone(),
            connections: self.connections,
            duration_ns,
        }
    }
}

/// What to say when a server did not answer in time, given why the last attempt
/// failed, if there was one.
pub open spec fn not_ready_text(port: u16, last: Option<Seq<char>>) -> Seq<char> {
    "server on port "@ + text::decimal(port as nat) + " did not become ready: "@ + match last {
        Some(error) => error,
        None => "no response"@,
    }
}

/// What to do while waiting for a server.
#[derive(Debug)]
pub enum WaitStep {
    /// Ask whether it answers.
    Ask,
    /// Go on: it has answered.
    Ready,
    /// Give up, and say this.
    GiveUp(String),
}

/// Waiting for a server to answer, so that a slow start does not land in the
/// measurement.
#[derive(Debug)]
pub struct Waiting {
    port: u16,
    ready: bool,
    last: Option<String>,
}

/// What a [`Waiting`] knows.
#[verifier::ext_equal]
pub struct WaitingView {
    pub port: u16,
    /// It has answered.
    pub ready: bool,
    /// Why the last attempt failed.
    pub last: Option<Seq<char>>,
}

impl View for Waiting {
    type V = WaitingView;

    closed spec fn view(&self) -> WaitingView {
        WaitingView {
            port: self.port,
            ready: self.ready,
            last: match self.last {
                Some(error) => Some(error@),
                None => None,
            },
        }
    }
}

impl WaitingView {
    /// The waiting after an attempt that went well, or failed for this reason.
    pub open spec fn after(self, failure: Option<Seq<char>>) -> WaitingView {
        match failure {
            None => WaitingView { ready: true, ..self },
            Some(error) => WaitingView { last: Some(error), ..self },
        }
    }

    /// The waiting after several attempts.
    pub open spec fn after_all(self, failures: Seq<Option<Seq<char>>>) -> WaitingView
        decreases failures.len(),
    {
        if failures.len() == 0 {
            self
        } else {
            self.after_all(failures.drop_last()).after(failures.last())
        }
    }
}

impl Waiting {
    /// Start waiting for the server of a load.
    pub fn begin(spec: &LoadSpec) -> (r: Self)
        ensures
            r@ == (WaitingView { port: spec.port, ready: false, last: None }),
    {
        Waiting { port: spec.port, ready: false, last: None }
    }

    /// What to do, given whether there is still time.
    pub fn next(&self, before_deadline: bool) -> (r: WaitStep)
        ensures
            match r {
                WaitStep::Ready => self@.ready,
                WaitStep::Ask => !self@.ready && before_deadline,
                WaitStep::GiveUp(text) => !self@.ready && !before_deadline && text@
                    == not_ready_text(self@.port, self@.last),
            },
    {
        if self.ready {
            return WaitStep::Ready;
        }
        if before_deadline {
            return WaitStep::Ask;
        }
        let mut out = "server on port ".to_owned();
        text::push_decimal(&mut out, self.port as u64);
        out.append(" did not become ready: ");
        match &self.last {
            Some(error) => out.append(error.as_str()),
            None => out.append("no response"),
        }
        WaitStep::GiveUp(out)
    }

    /// Notes how an attempt went.
    pub fn asked(&mut self, outcome: core::result::Result<(), String>)
        ensures
            final(self)@ == old(self)@.after(
                match outcome {
                    Ok(_) => None,
                    Err(error) => Some(error@),
                },
            ),
    {
        match outcome {
            Ok(_) => {
                self.ready = true;
            },
            Err(error) => {
                self.last = Some(error);
            },
        }
    }
}

/// A server is ready as soon as one attempt went well, and until then the latest
/// failure is the one that is reported.
pub proof fn law_one_answer_is_enough(start: WaitingView, failures: Seq<Option<Seq<char>>>)
    requires
        !start.ready,
    ensures
        start.after_all(failures).ready <==> exists|k: int|
            0 <= k < failures.len() && #[trigger] failures[k] is None,
        failures.len() > 0 && failures.last() is Some ==> start.after_all(failures).last
            == failures.last(),
    decreases failures.len(),
{
    if failures.len() > 0 {
        let earlier = failures.drop_last();
        law_one_answer_is_enough(start, earlier);
        if start.after_all(earlier).ready {
            let k = choose|k: int| 0 <= k < earlier.len() && #[trigger] earlier[k] is None;
            assert(failures[k] is None);
        }
        if failures.last() is None {
            assert(failures[failures.len() - 1] is None);
        }
        if exists|k: int| 0 <= k < failures.len() && #[trigger] failures[k] is None {
            let k = choose|k: int| 0 <= k < failures.len() && #[trigger] failures[k] is None;
            if k < earlier.len() {
                assert(earlier[k] is None);
            }
        }
    }
}

/// The outcome of asking whether a server answers, given the status it replied
/// with and how that reads.
pub fn probe_outcome(code: u16, reads: &str) -> (r: core::result::Result<(), String>)
    ensures
        match r {
            Ok(_) => status::success(code),
            Err(error) => !status::success(code) && error@ == "readiness probe got "@ + reads@,
        },
{
    if status::is_success(code) {
        Ok(())
    } else {
        let mut error = "readiness probe got ".to_owned();
        error.append(reads);
        Err(error)
    }
}

/// One connection of a load run, which sends a request at a time and waits for
/// the whole response.
#[derive(Debug)]
pub struct Connection {
    latencies_ns: Vec<u64>,
    failed: bool,
}

/// What a [`Connection`] has seen.
#[verifier::ext_equal]
pub struct ConnectionView {
    /// How long each request took.
    pub samples: Seq<u64>,
    /// A response was no success, which ends the connection.
    pub failed: bool,
}

impl View for Connection {
    type V = ConnectionView;

    closed spec fn view(&self) -> ConnectionView {
        ConnectionView { samples: self.latencies_ns@, failed: self.failed }
    }
}

impl Connection {
    /// A connection that has sent nothing yet.
    pub fn new() -> (r: Self)
        ensures
            r@ == (ConnectionView { samples: Seq::empty(), failed: false }),
    {
        Connection { latencies_ns: Vec::new(), failed: false }
    }

    /// Whether to send another request, given whether there is still time.
    pub fn sends(&self, before_deadline: bool) -> (r: bool)
        ensures
            r == (before_deadline && !self@.failed),
    {
        before_deadline && !self.failed
    }

    /// Notes a response, given the status it came with, how that reads, and how
    /// long it took. Only a success counts; anything else ends the connection.
    pub fn answered(&mut self, code: u16, reads: &str, elapsed_ns: u64) -> (r: core::result::Result<
        (),
        String,
    >)
        ensures
            match r {
                Ok(_) => status::success(code) && final(self)@ == (ConnectionView {
                    samples: old(self)@.samples.push(elapsed_ns),
                    ..old(self)@
                }),
                Err(error) => !status::success(code) && final(self)@ == (ConnectionView {
                    failed: true,
                    ..old(self)@
                }) && error@ == "server replied "@ + reads@,
            },
    {
        if status::is_success(code) {
            self.latencies_ns.push(elapsed_ns);
            Ok(())
        } else {
            self.failed = true;
            let mut error = "server replied ".to_owned();
            error.append(reads);
            Err(error)
        }
    }

    /// What the connection has measured, `None` if it failed.
    pub fn finish(self) -> (r: Option<Vec<u64>>)
        ensures
            match r {
                Some(samples) => !self@.failed && samples@ == self@.samples,
                None => self@.failed,
            },
    {
        if self.failed {
            None
        } else {
            Some(self.latencies_ns)
        }
    }
}

/// Whether a sequence ascends.
pub open spec fn ascending(s: Seq<u64>) -> bool {
    forall|i: int, j: int| 0 <= i <= j < s.len() ==> s[i] <= s[j]
}

/// Puts numbers in ascending order, through `slice::sort_unstable`.
#[verifier::external_body]
fn sort(numbers: &mut Vec<u64>)
    ensures
        ascending(final(numbers)@),
        final(numbers)@.to_multiset() == old(numbers)@.to_multiset(),
{
    numbers.sort_unstable();
}

/// Outcome of one load run.
#[derive(Debug)]
pub struct LoadResult {
    elapsed_ns: u128,
    errors: u64,
    latencies_ns: Vec<u64>,
}

/// What a [`LoadResult`] holds.
#[verifier::ext_equal]
pub struct ResultView {
    /// How long the run took, in nanoseconds.
    pub elapsed_ns: u128,
    /// How many connections failed.
    pub errors: u64,
    /// Sorted ascending, so percentiles are a direct index.
    pub samples: Seq<u64>,
}

impl View for LoadResult {
    type V = ResultView;

    closed spec fn view(&self) -> ResultView {
        ResultView {
            elapsed_ns: self.elapsed_ns,
            errors: self.errors,
            samples: self.latencies_ns@,
        }
    }
}

impl ResultView {
    /// Latencies are kept in order.
    pub open spec fn wf(self) -> bool {
        ascending(self.samples)
    }
}

/// All samples of the connections that did not fail.
pub open spec fn all_samples(outcomes: Seq<Option<Vec<u64>>>) -> Multiset<u64>
    decreases outcomes.len(),
{
    if outcomes.len() == 0 {
        Multiset::empty()
    } else {
        let rest = all_samples(outcomes.drop_last());
        match outcomes.last() {
            Some(samples) => rest.add(samples@.to_multiset()),
            None => rest,
        }
    }
}

/// How many connections failed.
pub open spec fn failures(outcomes: Seq<Option<Vec<u64>>>) -> nat
    decreases outcomes.len(),
{
    if outcomes.len() == 0 {
        0
    } else {
        failures(outcomes.drop_last()) + match outcomes.last() {
            Some(_) => 0nat,
            None => 1nat,
        }
    }
}

/// The sample at an index, the last one for an index past the end; none if there
/// are no samples.
pub open spec fn at_index(samples: Seq<u64>, index: nat) -> Option<u64> {
    if samples.len() == 0 {
        None
    } else if index < samples.len() {
        Some(samples[index as int])
    } else {
        Some(samples.last())
    }
}

/// The sum of the samples.
pub open spec fn total(samples: Seq<u64>) -> nat
    decreases samples.len(),
{
    if samples.len() == 0 {
        0
    } else {
        total(samples.drop_last()) + samples.last() as nat
    }
}

impl LoadResult {
    /// Adds up a run from what its connections measured, `None` for each that
    /// failed. A connection that dies mid-run is a server-side failure: it is
    /// counted, and the samples of the others are kept.
    pub fn merge(outcomes: &Vec<Option<Vec<u64>>>, elapsed_ns: u128) -> (r: Self)
        ensures
            r@.wf(),
            r@.elapsed_ns == elapsed_ns,
            r@.errors == failures(outcomes@),
            r@.samples.to_multiset() == all_samples(outcomes@),
    {
        let mut latencies_ns: Vec<u64> = Vec::new();
        let mut errors: u64 = 0;
        let mut i: usize = 0;
        assert(outcomes@.take(0) =~= Seq::empty());
        proof {
            latencies_ns@.to_multiset_ensures();
        }
        assert(latencies_ns@.to_multiset() =~= Multiset::empty());
        while i < outcomes.len()
            invariant
                i <= outcomes.len(),
                errors <= i,
                errors == failures(outcomes@.take(i as int)),
                latencies_ns@.to_multiset() == all_samples(outcomes@.take(i as int)),
            decreases outcomes.len() - i,
        {
            assert(outcomes@.take(i + 1).drop_last() =~= outcomes@.take(i as int));
            match &outcomes[i] {
                Some(samples) => {
                    let ghost before = latencies_ns@;
                    let mut j: usize = 0;
                    while j < samples.len()
                        invariant
                            j <= samples.len(),
                            latencies_ns@ == before + samples@.take(j as int),
                        decreases samples.len() - j,
                    {
                        assert(samples@.take(j + 1) =~= samples@.take(j as int).push(
                            samples@[j as int],
                        ));
                        latencies_ns.push(samples[j]);
                        assert(latencies_ns@ =~= before + samples@.take(j + 1));
                        j += 1;
                    }
                    assert(samples@.take(samples@.len() as int) =~= samples@);
                    proof {
                        vstd::seq_lib::lemma_multiset_commutative(before, samples@);
                    }
                },
                None => {
                    errors += 1;
                },
            }
            i += 1;
        }
        assert(outcomes@.take(outcomes@.len() as int) =~= outcomes@);
        sort(&mut latencies_ns);
        LoadResult { elapsed_ns, errors, latencies_ns }
    }

    /// How long the run took, in nanoseconds.
    pub fn elapsed_ns(&self) -> (r: u128)
        ensures
            r == self@.elapsed_ns,
    {
        self.elapsed_ns
    }

    /// How many connections failed.
    pub fn errors(&self) -> (r: u64)
        ensures
            r == self@.errors,
    {
        self.errors
    }

    /// How many requests were answered.
    pub fn requests(&self) -> (r: u64)
        ensures
            r == self@.samples.len(),
    {
        self.latencies_ns.len() as u64
    }

    /// The latency at an index into the sorted samples, the last one for an
    /// index past the end, so that the top quantile never runs off it. `None` if
    /// there are no samples.
    pub fn sample_at(&self, index: usize) -> (r: Option<u64>)
        ensures
            r == at_index(self@.samples, index as nat),
    {
        let len = self.latencies_ns.len();
        if len == 0 {
            None
        } else if index < len {
            Some(self.latencies_ns[index])
        } else {
            Some(self.latencies_ns[len - 1])
        }
    }

    /// The sum of all latencies in nanoseconds.
    pub fn total_ns(&self) -> (r: u128)
        ensures
            r == total(self@.samples),
    {
        let mut sum: u128 = 0;
        let mut i: usize = 0;
        assert(self.latencies_ns@.take(0) =~= Seq::empty());
        while i < self.latencies_ns.len()
            invariant
                i <= self.latencies_ns.len(),
                sum == total(self.latencies_ns@.take(i as int)),
                sum <= i * 0xFFFF_FFFF_FFFF_FFFF,
            decreases self.latencies_ns.len() - i,
        {
            assert(self.latencies_ns@.take(i + 1).drop_last() =~= self.latencies_ns@.take(i as int));
            assert(i * 0xFFFF_FFFF_FFFF_FFFF + 0xFFFF_FFFF_FFFF_FFFF
                <= 0xFFFF_FFFF_FFFF_FFFF * 0xFFFF_FFFF_FFFF_FFFF) by (nonlinear_arith)
                requires
                    i + 1 <= 0xFFFF_FFFF_FFFF_FFFF,
            ;
            sum += self.latencies_ns[i] as u128;
            i += 1;
        }
        assert(self.latencies_ns@.take(self.latencies_ns@.len() as int) =~= self.latencies_ns@);
        sum
    }
}

impl Default for LoadResult {
    /// A run without a request.
    fn default() -> (r: Self)
        ensures
            r@ == (ResultView { elapsed_ns: 0, errors: 0, samples: Seq::empty() }),
            r@.wf(),
    {
        LoadResult { elapsed_ns: 0, errors: 0, latencies_ns: Vec::new() }
    }
}

/// Every index shows a latency as soon as there is one, and a later index never
/// shows a smaller one.
pub proof fn law_percentiles_ascend(samples: Seq<u64>, i: nat, j: nat)
    requires
        ascending(samples),
        samples.len() > 0,
        i <= j,
    ensures
        at_index(samples, i) matches Some(a) && at_index(samples, j) matches Some(b) && a <= b,
{
}

/// Every run accounts for each of its connections: the samples of those that
/// ended well, all of them, and one failure for each that did not.
pub proof fn law_every_connection_counts(outcomes: Seq<Option<Vec<u64>>>, outcome: Option<Vec<u64>>)
    ensures
        failures(outcomes) <= outcomes.len(),
        failures(outcomes.push(outcome)) == failures(outcomes) + match outcome {
            Some(_) => 0nat,
            None => 1nat,
        },
        all_samples(outcomes.push(outcome)).len() == all_samples(outcomes).len() + match outcome {
            Some(samples) => samples@.len(),
            None => 0nat,
        },
    decreases outcomes.len(),
{
    assert(outcomes.push(outcome).drop_last() =~= outcomes);
    if outcomes.len() > 0 {
        law_every_connection_counts(outcomes.drop_last(), None);
    }
    if let Some(samples) = outcome {
        samples@.to_multiset_ensures();
    }
}

/// A load goes to its host and port, is posted if and only if it has a body, and
/// runs over the connections that are asked for, but one at least.
pub proof fn law_a_load_goes_where_it_says(
    spec: LoadSpec,
    authority: String,
    posts: bool,
    connections: usize,
)
    requires
        call_ensures(LoadSpec::authority, (&spec,), authority),
        call_ensures(LoadSpec::posts, (&spec,), posts),
        call_ensures(LoadSpec::connection_count, (&spec,), connections),
    ensures
        authority@ == spec.host@ + ":"@ + text::decimal(spec.port as nat),
        posts <==> content::bytes_of(spec.body).len() > 0,
        connections >= 1,
        spec.connections >= 1 ==> connections == spec.connections,
        spec.connections == 0 ==> connections == 1,
{
}

/// A probe asks the same server for the same path, once and without a body. The
/// same load for another while is the same load.
pub proof fn law_a_probe_asks_the_same_server(
    spec: LoadSpec,
    probe: LoadSpec,
    posts: bool,
    duration_ns: u128,
    longer: LoadSpec,
)
    requires
        call_ensures(LoadSpec::probe, (&spec,), probe),
        call_ensures(LoadSpec::posts, (&probe,), posts),
        call_ensures(LoadSpec::lasting, (&spec, duration_ns), longer),
    ensures
        probe.host@ == spec.host@ && probe.port == spec.port && probe.path@ == spec.path@,
        !posts,
        probe.connections == 1,
        probe.duration_ns == 0,
        longer.host@ == spec.host@ && longer.port == spec.port && longer.path@ == spec.path@,
        content::bytes_of(longer.body) == content::bytes_of(spec.body),
        longer.connections == spec.connections,
        longer.duration_ns == duration_ns,
{
}

/// Waiting starts without an answer. It is over as soon as an attempt went well,
/// even if time is up; without that it goes on while there is time, and is given up
/// after that with the port and the reason of the last attempt, if there was one.
pub proof fn law_what_waiting_leads_to(
    spec: LoadSpec,
    begun: Waiting,
    waiting: Waiting,
    before_deadline: bool,
    step: WaitStep,
)
    requires
        call_ensures(Waiting::begin, (&spec,), begun),
        call_ensures(Waiting::next, (&waiting, before_deadline), step),
    ensures
        begun@.port == spec.port && !begun@.ready && begun@.last is None,
        step is Ready <==> waiting@.ready,
        step is Ask <==> !waiting@.ready && before_deadline,
        step matches WaitStep::GiveUp(text) ==> {
            let head = "server on port "@ + text::decimal(waiting@.port as nat)
                + " did not become ready: "@;
            &&& waiting@.last matches Some(error) ==> text@ == head + error
            &&& waiting@.last is None ==> text@ == head + "no response"@
        },
{
}

/// An attempt that went well makes the server ready, and one that failed leaves its
/// reason and nothing else.
pub proof fn law_attempts_are_noted(
    waiting: &mut Waiting,
    outcome: core::result::Result<(), String>,
)
    requires
        call_ensures(Waiting::asked, (waiting, outcome), ()),
    ensures
        final(waiting)@.port == old(waiting)@.port,
        outcome is Ok ==> final(waiting)@.ready && final(waiting)@.last == old(waiting)@.last,
        outcome is Err ==> final(waiting)@.ready == old(waiting)@.ready,
        outcome matches Err(error) ==> final(waiting)@.last == Some(error@),
{
}

/// Only the two hundreds are an answer; any other status is reported as it reads.
pub proof fn law_only_success_is_an_answer(
    code: u16,
    reads: &str,
    r: core::result::Result<(), String>,
)
    requires
        call_ensures(probe_outcome, (code, reads), r),
    ensures
        r is Ok <==> 200 <= code <= 299,
        r matches Err(error) ==> error@ == "readiness probe got "@ + reads@,
{
}

/// A connection counts the time of every success, in order, and ends with the first
/// response that is none. It sends on while there is time and nothing has failed.
pub proof fn law_a_connection_counts_successes(
    connection: &mut Connection,
    code: u16,
    reads: &str,
    elapsed_ns: u64,
    r: core::result::Result<(), String>,
    before_deadline: bool,
    sends: bool,
    measured: Option<Vec<u64>>,
)
    requires
        call_ensures(Connection::answered, (connection, code, reads, elapsed_ns), r),
        call_ensures(Connection::sends, (&*final(connection), before_deadline), sends),
        call_ensures(Connection::finish, (*final(connection),), measured),
    ensures
        r is Ok <==> 200 <= code <= 299,
        r is Ok ==> final(connection)@.samples == old(connection)@.samples + seq![elapsed_ns]
            && final(connection)@.failed == old(connection)@.failed,
        r matches Err(error) ==> final(connection)@.samples == old(connection)@.samples
            && final(connection)@.failed && error@ == "server replied "@ + reads@,
        sends <==> before_deadline && r is Ok && !old(connection)@.failed,
        measured is Some <==> r is Ok && !old(connection)@.failed,
        measured matches Some(samples) ==> samples@ == old(connection)@.samples + seq![elapsed_ns],
{
    assert(old(connection)@.samples.push(elapsed_ns) =~= old(connection)@.samples
        + seq![elapsed_ns]);
}

/// A connection starts with nothing measured, and gives nothing but an empty list if
/// it ends there.
pub proof fn law_a_connection_starts_empty(connection: Connection, measured: Option<Vec<u64>>)
    requires
        call_ensures(Connection::new, (), connection),
        call_ensures(Connection::finish, (connection,), measured),
    ensures
        measured matches Some(samples) && samples@.len() == 0,
{
}

/// How often a number occurs among the samples of the connections that ended well is
/// the sum of how often it occurs with each of them.
pub proof fn law_samples_add_up(
    outcomes: Seq<Option<Vec<u64>>>,
    outcome: Option<Vec<u64>>,
    sample: u64,
)
    ensures
        all_samples(Seq::<Option<Vec<u64>>>::empty()).count(sample) == 0,
        failures(Seq::<Option<Vec<u64>>>::empty()) == 0,
        all_samples(outcomes.push(outcome)).count(sample) == all_samples(outcomes).count(sample)
            + match outcome {
            Some(samples) => samples@.to_multiset().count(sample),
            None => 0,
        },
{
    assert(outcomes.push(outcome).drop_last() =~= outcomes);
}

/// A run shows the time it took, its failures, and the samples of its connections in
/// ascending order, all of them and no others: how many there are, what they add up
/// to, and the one at any index, or the last one past the end. With one connection
/// these are its samples, or one failure and no sample.
pub proof fn law_a_run_shows_what_was_measured(
    outcomes: &Vec<Option<Vec<u64>>>,
    elapsed_ns: u128,
    result: LoadResult,
    shown_ns: u128,
    errors: u64,
    requests: u64,
    total_ns: u128,
    index: usize,
    sample: Option<u64>,
)
    requires
        call_ensures(LoadResult::merge, (outcomes, elapsed_ns), result),
        call_ensures(LoadResult::elapsed_ns, (&result,), shown_ns),
        call_ensures(LoadResult::errors, (&result,), errors),
        call_ensures(LoadResult::requests, (&result,), requests),
        call_ensures(LoadResult::total_ns, (&result,), total_ns),
        call_ensures(LoadResult::sample_at, (&result, index), sample),
    ensures
        shown_ns == elapsed_ns,
        errors == failures(outcomes@),
        requests == all_samples(outcomes@).len(),
        result@.samples.to_multiset() == all_samples(outcomes@),
        forall|i: int, j: int|
            0 <= i <= j < result@.samples.len() ==> result@.samples[i] <= result@.samples[j],
        sample is Some <==> requests > 0,
        index < requests ==> sample == Some(result@.samples[index as int]),
        0 < requests <= index ==> sample == Some(result@.samples[requests - 1]),
        total_ns == result@.samples.fold_left(0int, |sum: int, ns: u64| sum + ns),
        outcomes@.len() == 1 ==> match outcomes@[0] {
            Some(samples) => errors == 0 && requests == samples@.len()
                && result@.samples.to_multiset() == samples@.to_multiset(),
            None => errors == 1 && requests == 0,
        },
{
    result@.samples.to_multiset_ensures();
    lemma_total(result@.samples);
    if outcomes@.len() == 1 {
        let none = outcomes@.drop_last();
        assert(none =~= Seq::empty());
        assert(all_samples(none) =~= Multiset::empty());
        assert(failures(none) == 0);
        if let Some(samples) = outcomes@[0] {
            samples@.to_multiset_ensures();
            assert(all_samples(outcomes@) =~= samples@.to_multiset());
        } else {
            assert(all_samples(outcomes@) =~= Multiset::empty());
        }
    }
}

proof fn lemma_total(samples: Seq<u64>)
    ensures
        total(samples) == samples.fold_left(0int, |sum: int, ns: u64| sum + ns),
    decreases samples.len(),
{
    if samples.len() > 0 {
        lemma_total(samples.drop_last());
    }
}

/// A run without a request shows zeros and no sample.
pub proof fn law_an_empty_run_shows_nothing(
    result: LoadResult,
    elapsed_ns: u128,
    errors: u64,
    requests: u64,
    index: usize,
    sample: Option<u64>,
)
    requires
        call_ensures(<LoadResult as Default>::default, (), result),
        call_ensures(LoadResult::elapsed_ns, (&result,), elapsed_ns),
        call_ensures(LoadResult::errors, (&result,), errors),
        call_ensures(LoadResult::requests, (&result,), requests),
        call_ensures(LoadResult::sample_at, (&result, index), sample),
    ensures
        elapsed_ns == 0,
        errors == 0,
        requests == 0,
        sample is None,
{
}

} // verus!
