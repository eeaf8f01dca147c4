//! The head-to-head sweep: which servers are started, what they are driven with,
//! and which of the results stand out.
//!
//! Two sweeps are run against each engine. The concurrency sweep keeps the
//! request body tiny and doubles the number of requests in flight each step; the
//! size sweep keeps that number and doubles the body.

use crate::bench::{self, Engine};
use crate::content;
use crate::load::{LoadSpec, LoadView};
use crate::text;
use bytes::Bytes;
use vstd::prelude::*;

verus! {

/// The engines, in the order they are run and listed in.
pub fn engines() -> (r: Vec<Engine>)
    ensures
        r@ == seq![Engine::Httpsys, Engine::Axum],
{
    let mut all: Vec<Engine> = Vec::new();
    all.push(Engine::Httpsys);
    all.push(Engine::Axum);
    all
}

/// How the sweep should be run.
#[derive(Debug, Clone)]
pub struct SweepOptions {
    /// One port per engine, in the order of [`engines`].
    pub ports: Vec<u16>,
    /// Path both engines serve on.
    pub path: String,
    /// Measurement window per data point, in nanoseconds.
    pub duration_ns: u128,
    /// Unmeasured window before each data point, in nanoseconds.
    pub warmup_ns: u128,
    /// Concurrency levels to sweep.
    pub connections: Vec<usize>,
    /// Request body sizes to sweep.
    pub sizes: Vec<usize>,
    /// Concurrency held constant while sweeping body size.
    pub size_sweep_connections: usize,
    /// Body size held constant while sweeping concurrency.
    pub concurrency_sweep_bytes: usize,
    /// Let httpsys answer from the kernel's cache.
    pub kernel_cache: bool,
}

impl SweepOptions {
    /// The port of the engine with this index.
    pub fn port_for(&self, index: usize) -> (r: core::result::Result<u16, String>)
        ensures
            match r {
                Ok(port) => index < self.ports@.len() && port == self.ports@[index as int],
                Err(error) => index >= self.ports@.len() && error@
                    == "expected 2 ports, one per engine, got "@ + text::decimal(
                    self.ports@.len(),
                ),
            },
    {
        if index < self.ports.len() {
            Ok(self.ports[index])
        } else {
            let mut error = "expected 2 ports, one per engine, got ".to_owned();
            text::push_decimal(&mut error, self.ports.len() as u64);
            Err(error)
        }
    }

    /// The load that drives the server on `port`.
    pub open spec fn load(self, port: u16, body: Seq<u8>, connections: usize) -> LoadView {
        LoadView {
            host: "127.0.0.1"@,
            port,
            path: self.path@,
            body,
            connections,
            duration_ns: self.duration_ns,
        }
    }

    /// The load that drives the server on `port`.
    pub fn spec(&self, port: u16, body: Bytes, connections: usize) -> (r: LoadSpec)
        ensures
            r@ == self.load(port, content::bytes_of(body), connections),
    {
        LoadSpec {
            host: "127.0.0.1".to_owned(),
            port,
            path: self.path.clone(),
            body,
            connections,
            duration_ns: self.duration_ns,
        }
    }

    /// The load that asks whether a freshly started server answers.
    pub fn ready_spec(&self, port: u16) -> (r: LoadSpec)
        ensures
            r@ == self.load(port, Seq::empty(), 1),
    {
        self.spec(port, content::empty(), 1)
    }

    /// The load that asks a server to shut down.
    pub fn stop_spec(&self, port: u16) -> (r: LoadSpec)
        ensures
            r@ == (LoadView {
                path: bench::parent(self.path@) + "/shutdown/"@,
                duration_ns: 0,
                ..self.load(port, Seq::empty(), 1)
            }),
    {
        let mut spec = self.spec(port, content::empty(), 1);
        spec.path = bench::shutdown_path(self.path.as_str());
        spec.duration_ns = 0;
        spec
    }

    /// The load that goes unmeasured before `spec`, if any does.
    pub fn warmup_spec(&self, spec: &LoadSpec) -> (r: Option<LoadSpec>)
        ensures
            match r {
                Some(warmup) => self.warmup_ns > 0 && warmup@ == (LoadView {
                    duration_ns: self.warmup_ns,
                    ..spec@
                }),
                None => self.warmup_ns == 0,
            },
    {
        if self.warmup_ns > 0 {
            Some(spec.lasting(self.warmup_ns))
        } else {
            None
        }
    }

    /// The arguments that make this program a server of the engine. Only httpsys
    /// has a kernel cache to turn on.
    pub fn serve_args(&self, engine: Engine, port: u16) -> (r: Vec<String>)
        ensures
            r@.len() == if self.kernel_cache && engine == Engine::Httpsys {
                8int
            } else {
                7int
            },
            r@[0]@ == "serve"@,
            r@[1]@ == "--engine"@,
            r@[2]@ == engine.name(),
            r@[3]@ == "--port"@,
            r@[4]@ == text::decimal(port as nat),
            r@[5]@ == "--path"@,
            r@[6]@ == self.path@,
            r@.len() == 8 ==> r@[7]@ == "--kernel-cache"@,
    {
        let mut args: Vec<String> = Vec::new();
        args.push("serve".to_owned());
        args.push("--engine".to_owned());
        args.push(engine.label().to_owned());
        args.push("--port".to_owned());
        args.push(text::decimal_text(port as u64));
        args.push("--path".to_owned());
        args.push(self.path.clone());
        if self.kernel_cache && engine == Engine::Httpsys {
            args.push("--kernel-cache".to_owned());
        }
        args
    }
}

// ---------------------------------------------------------------------------
// Payload
// ---------------------------------------------------------------------------

/// One step of a xorshift generator.
pub open spec fn shifted(state: u64) -> u64 {
    let a = state ^ (state << 13);
    let b = a ^ (a >> 7);
    b ^ (b << 17)
}

/// The state of the generator after so many steps.
pub open spec fn state_after(steps: nat) -> u64
    decreases steps,
{
    if steps == 0 {
        0x2545_F491_4F6C_DD1Du64
    } else {
        shifted(state_after((steps - 1) as nat))
    }
}

/// The byte at an index of the payload. Every state gives eight bytes, the
/// lowest first.
pub open spec fn payload_byte(index: nat) -> u8 {
    ((state_after(index / 8 + 1) >> ((8 * (index % 8)) as u64)) & 0xFF) as u8
}

/// A deterministic, incompressible-enough payload. Content does not matter to
/// either server, but keeping it identical across runs does.
pub fn payload(size: usize) -> (r: Bytes)
    requires
        size <= isize::MAX,
    ensures
        content::bytes_of(r) == Seq::new(size as nat, |i: int| payload_byte(i as nat)),
{
    let mut buffer: Vec<u8> = Vec::with_capacity(size);
    let mut state: u64 = 0x2545_F491_4F6C_DD1Du64;
    let mut i: usize = 0;
    while i < size
        invariant
            i <= size,
            buffer@.len() == i,
            state == state_after(((i + 7) / 8) as nat),
            forall|k: int| 0 <= k < i ==> buffer@[k] == #[trigger] payload_byte(k as nat),
        decreases size - i,
    {
        if i % 8 == 0 {
            assert((i + 7) / 8 == i / 8);
            state = state ^ (state << 13u64);
            state = state ^ (state >> 7u64);
            state = state ^ (state << 17u64);
        }
        assert(state == state_after((i / 8 + 1) as nat));
        let shift: u64 = 8 * (i % 8) as u64;
        let byte: u64 = (state >> shift) & 0xFF;
        assert(byte <= 0xFF) by (bit_vector)
            requires
                byte == (state >> shift) & 0xFFu64,
        ;
        buffer.push(byte as u8);
        i += 1;
    }
    assert(buffer@ =~= Seq::new(size as nat, |k: int| payload_byte(k as nat)));
    Bytes::from(buffer)
}

/// A shorter payload is the start of a longer one.
pub proof fn law_payloads_agree(short: nat, long: nat)
    requires
        short <= long,
    ensures
        Seq::new(short, |i: int| payload_byte(i as nat)).is_prefix_of(
            Seq::new(long, |i: int| payload_byte(i as nat)),
        ),
{
}

// ---------------------------------------------------------------------------
// Which results stand out
// ---------------------------------------------------------------------------

/// Where a measured number stands among all others, given its bits as a 64-bit
/// float: negative numbers first, from the largest magnitude down, then positive
/// numbers from the smallest up.
pub open spec fn rank(bits: u64) -> int {
    if bits < 0x8000_0000_0000_0000 {
        bits as int
    } else {
        0x7FFF_FFFF_FFFF_FFFF - bits
    }
}

/// Where a measured number stands among all others, given its bits.
pub fn rank_of(bits: u64) -> (r: i64)
    ensures
        r == rank(bits),
{
    if bits < 0x8000_0000_0000_0000 {
        bits as i64
    } else {
        (0x7FFF_FFFF_FFFF_FFFFi128 - bits as i128) as i64
    }
}

/// One measured point, as far as points are picked and put in order.
#[derive(Debug, Clone, Copy, PartialEq, Eq, Structural)]
pub struct Point {
    pub engine: Engine,
    /// The rank of what the point is ordered or picked by.
    pub rank: i64,
}

/// Whether the points at two indices stand in order: by rank, and by index among
/// equals.
pub open spec fn in_order(points: Seq<Point>, a: usize, b: usize) -> bool {
    points[a as int].rank < points[b as int].rank || (points[a as int].rank
        == points[b as int].rank && a < b)
}

/// Whether `order` holds the indices of those of the first `n` points that
/// belong to the engine, in order.
pub open spec fn series_of(order: Seq<usize>, points: Seq<Point>, engine: Engine, n: int) -> bool {
    &&& forall|j: int|
        0 <= j < order.len() ==> (#[trigger] order[j]) < n && points[order[j] as int].engine
            == engine
    &&& forall|j: int, k: int|
        #![trigger order[j], order[k]]
        0 <= j < k < order.len() ==> in_order(points, order[j], order[k])
    &&& forall|i: int|
        #![trigger points[i]]
        0 <= i < n && points[i].engine == engine ==> order.contains(i as usize)
}

/// The points of one engine, by index, in order. Points of the same rank keep
/// the order they were measured in.
pub fn series_for(points: &Vec<Point>, engine: Engine) -> (r: Vec<usize>)
    ensures
        series_of(r@, points@, engine, points@.len() as int),
{
    let mut order: Vec<usize> = Vec::new();
    let mut n: usize = 0;
    while n < points.len()
        invariant
            n <= points.len(),
            series_of(order@, points@, engine, n as int),
        decreases points.len() - n,
    {
        if points[n].engine == engine {
            let mut at: usize = order.len();
            while at > 0 && points[order[at - 1]].rank > points[n].rank
                invariant
                    at <= order@.len(),
                    n < points.len(),
                    series_of(order@, points@, engine, n as int),
                    forall|k: int|
                        at <= k < order@.len() ==> points@[#[trigger] order@[k] as int].rank
                            > points@[n as int].rank,
                decreases at,
            {
                at -= 1;
            }
            let ghost earlier = order@;
            order.insert(at, n);
            proof {
                lemma_point_placed(earlier, order@, points@, engine, n, at as int);
            }
        }
        n += 1;
    }
    order
}

proof fn lemma_point_placed(
    earlier: Seq<usize>,
    order: Seq<usize>,
    points: Seq<Point>,
    engine: Engine,
    n: usize,
    at: int,
)
    requires
        n < points.len(),
        series_of(earlier, points, engine, n as int),
        points[n as int].engine == engine,
        0 <= at <= earlier.len(),
        order == earlier.insert(at, n),
        forall|k: int|
            at <= k < earlier.len() ==> points[#[trigger] earlier[k] as int].rank
                > points[n as int].rank,
        at > 0 ==> points[earlier[at - 1] as int].rank <= points[n as int].rank,
    ensures
        series_of(order, points, engine, n + 1),
{
    assert forall|j: int| 0 <= j < order.len() implies (#[trigger] order[j]) < n + 1
        && points[order[j] as int].engine == engine by {
        if j < at {
            assert(order[j] == earlier[j]);
        } else if j > at {
            assert(order[j] == earlier[j - 1]);
        }
    }
    assert forall|j: int, k: int|
        #![trigger order[j], order[k]]
        0 <= j < k < order.len() implies in_order(points, order[j], order[k]) by {
        if k < at {
            assert(in_order(points, earlier[j], earlier[k]));
        } else if k == at {
            assert(order[j] == earlier[j]);
            if j < at - 1 {
                assert(in_order(points, earlier[j], earlier[at - 1]));
            }
        } else if j < at {
            assert(in_order(points, earlier[j], earlier[k - 1]));
        } else if j == at {
            assert(order[k] == earlier[k - 1]);
        } else {
            assert(in_order(points, earlier[j - 1], earlier[k - 1]));
        }
    }
    assert forall|i: int|
        #![trigger points[i]]
        0 <= i < n + 1 && points[i].engine == engine implies order.contains(i as usize) by {
        if i < n {
            assert(earlier.contains(i as usize));
            let j = choose|j: int| 0 <= j < earlier.len() && earlier[j] == i as usize;
            let k = if j < at {
                j
            } else {
                j + 1
            };
            assert(order[k] == i as usize);
        } else {
            assert(order[at] == i as usize);
        }
    }
}

/// Whether the point at `index` is the best of its engine: no other has a higher
/// rank, and none after it has the same.
pub open spec fn is_best(points: Seq<Point>, engine: Engine, index: int) -> bool {
    &&& 0 <= index < points.len()
    &&& points[index].engine == engine
    &&& forall|i: int|
        0 <= i < points.len() && (#[trigger] points[i]).engine == engine ==> {
            points[i].rank < points[index].rank || (points[i].rank == points[index].rank && i
                <= index)
        }
}

/// Whether any point belongs to the engine.
pub open spec fn has_points(points: Seq<Point>, engine: Engine) -> bool {
    exists|i: int| 0 <= i < points.len() && (#[trigger] points[i]).engine == engine
}

/// The best point of an engine, by index; `None` if it has none.
pub fn best_of(points: &Vec<Point>, engine: Engine) -> (r: Option<usize>)
    ensures
        match r {
            Some(index) => is_best(points@, engine, index as int),
            None => !has_points(points@, engine),
        },
{
    let mut found: Option<usize> = None;
    let mut i: usize = 0;
    while i < points.len()
        invariant
            i <= points@.len(),
            match found {
                Some(index) => index < i && is_best(points@.take(i as int), engine, index as int),
                None => !has_points(points@.take(i as int), engine),
            },
        decreases points@.len() - i,
    {
        let better = points[i].engine == engine && match found {
            Some(index) => points[i].rank >= points[index].rank,
            None => true,
        };
        let ghost (earlier, later) = (points@.take(i as int), points@.take(i + 1));
        assert forall|k: int| 0 <= k < later.len() implies #[trigger] later[k] == if k < i {
            earlier[k]
        } else {
            points@[i as int]
        } by {}
        if better {
            assert forall|k: int| 0 <= k < later.len() && (#[trigger] later[k]).engine
                == engine implies later[k].rank < later[i as int].rank || (later[k].rank
                == later[i as int].rank && k <= i) by {
                if k < i {
                    assert(earlier[k].engine == engine);
                }
            }
            found = Some(i);
        } else {
            proof {
                if found is None {
                    assert forall|k: int| 0 <= k < later.len() implies (#[trigger] later[k]).engine
                        != engine by {
                        if k < i {
                            assert(earlier[k] == later[k]);
                        }
                    }
                } else {
                    let index = found->Some_0 as int;
                    assert(later[index] == earlier[index]);
                    assert forall|k: int| 0 <= k < later.len() && (#[trigger] later[k]).engine
                        == engine implies later[k].rank < later[index].rank || (later[k].rank
                        == later[index].rank && k <= index) by {
                        if k < i {
                            assert(earlier[k].engine == engine);
                        }
                    }
                }
            }
        }
        i += 1;
    }
    assert(points@.take(points@.len() as int) =~= points@);
    found
}

/// Best sample per engine by some metric, by index, in the order of the engines;
/// an engine without samples is left out.
pub fn best(points: &Vec<Point>) -> (r: Vec<usize>)
    ensures
        r@.len() == if has_points(points@, Engine::Httpsys) {
            1int
        } else {
            0int
        } + if has_points(points@, Engine::Axum) {
            1int
        } else {
            0int
        },
        has_points(points@, Engine::Httpsys) ==> is_best(
            points@,
            Engine::Httpsys,
            r@[0] as int,
        ),
        has_points(points@, Engine::Axum) ==> is_best(points@, Engine::Axum, r@.last() as int),
{
    let mut all: Vec<usize> = Vec::new();
    match best_of(points, Engine::Httpsys) {
        Some(index) => {
            assert(points@[index as int].engine == Engine::Httpsys);
            all.push(index);
        },
        None => {},
    }
    match best_of(points, Engine::Axum) {
        Some(index) => {
            assert(points@[index as int].engine == Engine::Axum);
            all.push(index);
        },
        None => {},
    }
    all
}

/// Only one point can be the best of its engine.
pub proof fn law_the_best_is_one(points: Seq<Point>, engine: Engine, a: int, b: int)
    requires
        is_best(points, engine, a),
        is_best(points, engine, b),
    ensures
        a == b,
{
    assert(points[a].engine == engine && points[b].engine == engine);
}

/// Of two numbers of the same sign the one with the larger magnitude stands
/// further from zero, and every negative number stands before every positive
/// one; different bits have different ranks.
pub proof fn law_ranks_order(a: u64, b: u64)
    ensures
        a < b < 0x8000_0000_0000_0000 ==> rank(a) < rank(b),
        0x8000_0000_0000_0000 <= a < b ==> rank(a) > rank(b),
        a < 0x8000_0000_0000_0000 <= b ==> rank(b) < rank(a),
        rank(a) == rank(b) ==> a == b,
        i64::MIN <= rank(a) <= i64::MAX,
{
}

// ---------------------------------------------------------------------------
// Stopping a server
// ---------------------------------------------------------------------------

/// How often to look whether a server has left by itself.
pub const STOP_POLLS: u32 = 40;

/// What looking at a server process showed.
#[derive(Debug, Clone, Copy, PartialEq, Eq, Structural)]
pub enum Seen {
    Exited,
    Running,
    Failed,
}

/// What to do about a server that was asked to stop.
#[derive(Debug, Clone, Copy, PartialEq, Eq, Structural)]
pub enum StopStep {
    /// Nothing: it has left.
    Done,
    /// Sleep, and look again unless that was the last time.
    Wait,
    /// Kill it.
    Kill,
}

/// Waiting for a server to stop.
#[derive(Debug, Clone, Copy, PartialEq, Eq, Structural)]
pub struct Stopping {
    /// How many more times to look.
    pub left: u32,
}

impl Stopping {
    /// The waiting starts.
    pub fn begin() -> (r: Self)
        ensures
            r.left == STOP_POLLS,
    {
        Stopping { left: STOP_POLLS }
    }

    /// Whether to look at the process, rather than to kill it for having taken
    /// too long.
    pub fn look(&self) -> (r: bool)
        ensures
            r == (self.left > 0),
    {
        self.left > 0
    }

    /// What a look at the process leads to.
    pub open spec fn step(self, seen: Seen) -> (Stopping, StopStep) {
        (
            Stopping { left: (self.left - 1) as u32 },
            match seen {
                Seen::Exited => StopStep::Done,
                Seen::Running => StopStep::Wait,
                Seen::Failed => StopStep::Kill,
            },
        )
    }

    /// Takes note of what a look at the process showed.
    pub fn looked(&mut self, seen: Seen) -> (r: StopStep)
        requires
            old(self).left > 0,
        ensures
            (*final(self), r) == old(self).step(seen),
    {
        self.left = self.left - 1;
        match seen {
            Seen::Exited => StopStep::Done,
            Seen::Running => StopStep::Wait,
            Seen::Failed => StopStep::Kill,
        }
    }

    /// How it ends if looking shows `seen`, one look after the other: `true` if
    /// the process left by itself, `false` if it has to be killed.
    pub open spec fn leaves(self, seen: Seq<Seen>) -> bool
        decreases seen.len(),
    {
        if self.left == 0 || seen.len() == 0 {
            false
        } else {
            let (after, step) = self.step(seen[0]);
            match step {
                StopStep::Done => true,
                StopStep::Kill => false,
                StopStep::Wait => after.leaves(seen.drop_first()),
            }
        }
    }
}

/// A server is left alone if and only if one of the looks finds it gone, with
/// nothing but running before that.
pub proof fn law_a_server_gets_its_time(state: Stopping, seen: Seq<Seen>)
    ensures
        state.leaves(seen) <==> exists|k: int|
            0 <= k < seen.len() && k < state.left && #[trigger] seen[k] == Seen::Exited && forall|
                j: int,
            |
                0 <= j < k ==> seen[j] == Seen::Running,
    decreases seen.len(),
{
    if state.left > 0 && seen.len() > 0 {
        let rest = seen.drop_first();
        let after = state.step(seen[0]).0;
        if seen[0] == Seen::Running {
            law_a_server_gets_its_time(after, rest);
            if state.leaves(seen) {
                let k = choose|k: int|
                    0 <= k < rest.len() && k < after.left && #[trigger] rest[k] == Seen::Exited
                        && forall|j: int| 0 <= j < k ==> rest[j] == Seen::Running;
                assert(seen[k + 1] == Seen::Exited);
                assert forall|j: int| 0 <= j < k + 1 implies seen[j] == Seen::Running by {
                    if j > 0 {
                        assert(rest[j - 1] == Seen::Running);
                    }
                }
            } else {
                assert forall|k: int|
                    0 <= k < seen.len() && k < state.left && #[trigger] seen[k]
                        == Seen::Exited implies !(forall|j: int|
                    0 <= j < k ==> seen[j] == Seen::Running) by {
                    if forall|j: int| 0 <= j < k ==> seen[j] == Seen::Running {
                        assert(rest[k - 1] == Seen::Exited);
                        assert forall|j: int| 0 <= j < k - 1 implies rest[j] == Seen::Running by {
                            assert(seen[j + 1] == Seen::Running);
                        }
                    }
                }
            }
        } else if seen[0] == Seen::Exited {
            assert(seen[0] == Seen::Exited);
        }
    }
}

/// Both engines are swept, this library first, and each has a port of its own: the
/// one at its index, or an error that says how many there are.
pub proof fn law_each_engine_has_a_port(
    all: Vec<Engine>,
    options: SweepOptions,
    index: usize,
    port: core::result::Result<u16, String>,
)
    requires
        call_ensures(engines, (), all),
        call_ensures(SweepOptions::port_for, (&options, index), port),
    ensures
        all@.len() == 2 && all@[0] is Httpsys && all@[1] is Axum,
        port is Ok <==> index < options.ports@.len(),
        port matches Ok(p) ==> p == options.ports@[index as int],
        port matches Err(error) ==> error@ == "expected 2 ports, one per engine, got "@
            + text::decimal(options.ports@.len()),
{
}

/// Every load goes to this machine, on the port it is made for. The measured one has
/// the body, connections and time that are asked for; the one that asks whether a
/// server is there and the one that stops it have one connection and no body, and
/// the latter goes to the sibling path at once.
pub proof fn law_the_loads_of_a_sweep(
    options: SweepOptions,
    port: u16,
    body: Bytes,
    connections: usize,
    spec: LoadSpec,
    ready: LoadSpec,
    stop: LoadSpec,
    path: &str,
    sibling: String,
)
    requires
        call_ensures(SweepOptions::spec, (&options, port, body, connections), spec),
        call_ensures(SweepOptions::ready_spec, (&options, port), ready),
        call_ensures(SweepOptions::stop_spec, (&options, port), stop),
        path@ == options.path@,
        call_ensures(bench::shutdown_path, (path,), sibling),
    ensures
        spec.host@ == "127.0.0.1"@ && ready.host@ == "127.0.0.1"@ && stop.host@ == "127.0.0.1"@,
        spec.port == port && ready.port == port && stop.port == port,
        spec.path@ == options.path@ && ready.path@ == options.path@,
        stop.path@ == sibling@,
        content::bytes_of(spec.body) == content::bytes_of(body),
        content::bytes_of(ready.body).len() == 0 && content::bytes_of(stop.body).len() == 0,
        spec.connections == connections && ready.connections == 1 && stop.connections == 1,
        spec.duration_ns == options.duration_ns && ready.duration_ns == options.duration_ns,
        stop.duration_ns == 0,
{
}

/// Before a measured load goes the same load for the warm-up time, unless that is
/// nothing.
pub proof fn law_a_load_is_warmed_up(
    options: SweepOptions,
    spec: LoadSpec,
    warmup: Option<LoadSpec>,
)
    requires
        call_ensures(SweepOptions::warmup_spec, (&options, &spec), warmup),
    ensures
        warmup is None <==> options.warmup_ns == 0,
        warmup matches Some(w) ==> {
            &&& w.duration_ns == options.warmup_ns
            &&& w.host@ == spec.host@ && w.port == spec.port && w.path@ == spec.path@
            &&& content::bytes_of(w.body) == content::bytes_of(spec.body)
            &&& w.connections == spec.connections
        },
{
}

/// A server is started with its engine, port and path, each behind its own flag, and
/// with the flag for the kernel's cache if and only if that is asked for and the
/// engine has one.
pub proof fn law_how_a_server_is_started(
    options: SweepOptions,
    engine: Engine,
    port: u16,
    args: Vec<String>,
    label: &'static str,
)
    requires
        call_ensures(SweepOptions::serve_args, (&options, engine, port), args),
        call_ensures(Engine::label, (engine,), label),
    ensures
        ({
            let cached = options.kernel_cache && engine is Httpsys;
            let plain = seq![
                "serve"@,
                "--engine"@,
                label@,
                "--port"@,
                text::decimal(port as nat),
                "--path"@,
                options.path@,
            ];
            args@.map_values(|arg: String| arg@) == if cached {
                plain.push("--kernel-cache"@)
            } else {
                plain
            }
        }),
{
    let cached = options.kernel_cache && engine is Httpsys;
    let plain = seq![
        "serve"@,
        "--engine"@,
        label@,
        "--port"@,
        text::decimal(port as nat),
        "--path"@,
        options.path@,
    ];
    assert(args@.map_values(|arg: String| arg@) =~= if cached {
        plain.push("--kernel-cache"@)
    } else {
        plain
    });
}

/// A payload has the size that is asked for, and each of its bytes depends on its
/// place alone, so that every run sends the same and a shorter payload is the start
/// of a longer one.
pub proof fn law_payloads_depend_on_size_alone(a: usize, b: usize, short: Bytes, long: Bytes, i: int)
    requires
        call_ensures(payload, (a,), short),
        call_ensures(payload, (b,), long),
    ensures
        content::bytes_of(short).len() == a,
        0 <= i < a && i < b ==> content::bytes_of(short)[i] == content::bytes_of(long)[i],
        a == b ==> content::bytes_of(short) == content::bytes_of(long),
{
}

/// Each eight bytes of a payload are a number, lowest byte first, and each number
/// comes of the one before by three shifts.
pub proof fn law_payloads_are_a_shifting_number(size: usize, data: Bytes, i: nat, steps: nat)
    requires
        call_ensures(payload, (size,), data),
        i < size,
    ensures
        content::bytes_of(data)[i as int] as u64 == (state_after(i / 8 + 1) >> ((8 * (i
            % 8)) as u64)) % 256,
        state_after(0) == 0x2545_F491_4F6C_DD1D,
        ({
            let before = state_after(steps);
            let once = before ^ (before << 13);
            let twice = once ^ (once >> 7);
            state_after(steps + 1) == twice ^ (twice << 17)
        }),
{
    let word = state_after(i / 8 + 1) >> ((8 * (i % 8)) as u64);
    assert(((word & 0xFF) as u8) as u64 == word % 256) by (bit_vector);
}

/// Numbers rank as they compare: of two of the same sign the larger magnitude is
/// further from zero, negative ones come first, and no two share a rank.
pub proof fn law_ranks_compare(a: u64, b: u64, rank_a: i64, rank_b: i64)
    requires
        call_ensures(rank_of, (a,), rank_a),
        call_ensures(rank_of, (b,), rank_b),
    ensures
        a < b < 0x8000_0000_0000_0000 ==> 0 <= rank_a < rank_b,
        0x8000_0000_0000_0000 <= a < b ==> rank_b < rank_a < 0,
        a != b ==> rank_a != rank_b,
{
}

/// A series has all the points of its engine and no others, each once, by rank, and
/// among equals in the order they were measured in.
pub proof fn law_a_series_has_the_points_of_its_engine(
    points: &Vec<Point>,
    engine: Engine,
    order: Vec<usize>,
    i: int,
    j: int,
    k: int,
)
    requires
        points@.len() <= usize::MAX,
        call_ensures(series_for, (points, engine), order),
    ensures
        0 <= i < points@.len() ==> (points@[i].engine == engine <==> order@.contains(i as usize)),
        0 <= j < order@.len() ==> order@[j] < points@.len(),
        0 <= j < k < order@.len() ==> {
            let (a, b) = (points@[order@[j] as int], points@[order@[k] as int]);
            a.rank < b.rank || (a.rank == b.rank && order@[j] < order@[k])
        },
{
    if 0 <= i < points@.len() && order@.contains(i as usize) {
        let at = choose|at: int| 0 <= at < order@.len() && order@[at] == i as usize;
        assert(points@[order@[at] as int].engine == engine);
    }
    if 0 <= j < k < order@.len() {
        assert(in_order(points@, order@[j], order@[k]));
    }
}

/// The best point of an engine is one of its points that none of them outranks, the
/// last one if there are several, and there is one as soon as the engine has a
/// point.
pub proof fn law_the_best_point_is_not_outranked(
    points: &Vec<Point>,
    engine: Engine,
    r: Option<usize>,
    i: int,
)
    requires
        call_ensures(best_of, (points, engine), r),
    ensures
        0 <= i < points@.len() && points@[i].engine == engine ==> {
            &&& r matches Some(index) && points@[i].rank <= points@[index as int].rank
            &&& i > r->Some_0 ==> points@[i].rank < points@[r->Some_0 as int].rank
        },
        r matches Some(index) ==> index < points@.len() && points@[index as int].engine == engine,
{
}

/// The best points are those of the engines that have any, this library's first.
pub proof fn law_the_best_points_of_all_engines(
    points: &Vec<Point>,
    all: Vec<usize>,
    httpsys: Option<usize>,
    axum: Option<usize>,
)
    requires
        call_ensures(best, (points,), all),
        call_ensures(best_of, (points, Engine::Httpsys), httpsys),
        call_ensures(best_of, (points, Engine::Axum), axum),
    ensures
        all@ == match httpsys {
            Some(index) => seq![index],
            None => Seq::empty(),
        } + match axum {
            Some(index) => seq![index],
            None => Seq::empty(),
        },
{
    if let Some(index) = httpsys {
        assert(points@[index as int].engine == Engine::Httpsys);
        law_the_best_is_one(points@, Engine::Httpsys, index as int, all@[0] as int);
    }
    if let Some(index) = axum {
        assert(points@[index as int].engine == Engine::Axum);
        law_the_best_is_one(points@, Engine::Axum, index as int, all@.last() as int);
    }
    assert(all@ =~= match httpsys {
        Some(index) => seq![index],
        None => Seq::empty(),
    } + match axum {
        Some(index) => seq![index],
        None => Seq::empty(),
    });
}

/// A server that was asked to stop is looked at up to forty times. It is left alone
/// once it has left, waited for while it runs, and killed where looking fails.
pub proof fn law_what_becomes_of_a_stopping_server(
    begun: Stopping,
    state: &mut Stopping,
    look: bool,
    seen: Seen,
    step: StopStep,
)
    requires
        old(state).left > 0,
        call_ensures(Stopping::begin, (), begun),
        call_ensures(Stopping::look, (&begun,), look),
        call_ensures(Stopping::looked, (state, seen), step),
    ensures
        begun.left == 40,
        look,
        final(state).left == old(state).left - 1,
        step is Done <==> seen is Exited,
        step is Wait <==> seen is Running,
        step is Kill <==> seen is Failed,
{
}

/// Looking ends when there are no looks left, and not before.
pub proof fn law_looking_ends(state: Stopping, look: bool)
    requires
        call_ensures(Stopping::look, (&state,), look),
    ensures
        !look <==> state.left == 0,
{
}

} // verus!
