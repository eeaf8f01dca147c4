//! `OVERLAPPED` bookkeeping shared by every asynchronous http.sys operation.
//!
//! The contract: an operation takes completion state from an [`OpPool`] and
//! immediately transfers one strong reference to it to the kernel. Exactly one
//! of three things then happens:
//!
//! * the kernel rejects the submission, and [`finish`] has the submitter
//!   reclaim the reference;
//! * the kernel completes it inline and posts no completion packet, and
//!   [`finish`] has the submitter reclaim it;
//! * the kernel queues it, and a completion thread reclaims it and wakes the
//!   task that waits.

use crate::error::{self, Error, Result};
use crossbeam_queue::ArrayQueue;
use vstd::prelude::*;

verus! {

/// Win32 `ERROR_IO_PENDING`: the operation was queued and will complete later.
pub const ERROR_IO_PENDING: u32 = 997;

/// How a completed operation reads: the byte count, or the Win32 error.
pub open spec fn outcome(err: u32, len: u32) -> Result<u32> {
    if err == 0 {
        Ok(len)
    } else {
        Err(Error::Win32(err))
    }
}

/// The completion state of one operation.
#[derive(Clone, Copy)]
pub struct OverlappedWrap {
    /// Set once `err` and `len` belong to a completion.
    pub completed: bool,
    /// The Win32 status of the completion.
    pub err: u32,
    /// The bytes that the completion transferred.
    pub len: u32,
}

impl OverlappedWrap {
    /// State that no completion has reached yet.
    pub open spec fn fresh() -> Self {
        OverlappedWrap { completed: false, err: 0, len: 0 }
    }

    /// State that a completion has been recorded in.
    pub open spec fn completed_with(win32_err: u32, bytes: u32) -> Self {
        OverlappedWrap { completed: true, err: win32_err, len: bytes }
    }

    /// The state with the status written into it.
    pub open spec fn with_err(self, err: u32) -> Self {
        OverlappedWrap { err, ..self }
    }

    /// The state with the byte count written into it.
    pub open spec fn with_len(self, len: u32) -> Self {
        OverlappedWrap { len, ..self }
    }

    /// The state with the flag set.
    pub open spec fn flagged(self) -> Self {
        OverlappedWrap { completed: true, ..self }
    }

    /// What a look at the state shows: nothing before the completion, and the
    /// whole outcome after it.
    pub open spec fn polled(self) -> Option<Result<u32>> {
        if self.completed {
            Some(outcome(self.err, self.len))
        } else {
            None
        }
    }

    /// Fresh state.
    pub fn new() -> (r: Self)
        ensures
            r == Self::fresh(),
    {
        OverlappedWrap { completed: false, err: 0, len: 0 }
    }

    /// Write down the status of a completion.
    pub fn store_err(&mut self, err: u32)
        ensures
            *final(self) == old(self).with_err(err),
    {
        self.err = err;
    }

    /// Write down the byte count of a completion.
    pub fn store_len(&mut self, len: u32)
        ensures
            *final(self) == old(self).with_len(len),
    {
        self.len = len;
    }

    /// Set the flag that says the rest has been written.
    pub fn store_flag(&mut self)
        ensures
            *final(self) == old(self).flagged(),
    {
        self.completed = true;
    }

    /// Record a completion: the values first, and the flag that vouches for them
    /// last.
    pub fn complete(&mut self, win32_err: u32, bytes: u32)
        ensures
            *final(self) == old(self).with_err(win32_err).with_len(bytes).flagged(),
            *final(self) == Self::completed_with(win32_err, bytes),
    {
        self.store_err(win32_err);
        self.store_len(bytes);
        self.store_flag();
    }

    /// Whether a completion has been recorded.
    pub fn is_completed(&self) -> (r: bool)
        ensures
            r == self.completed,
    {
        self.completed
    }

    /// The outcome of the operation, once it has completed.
    pub fn result(&self) -> (r: Result<u32>)
        ensures
            r == outcome(self.err, self.len),
    {
        match self.err {
            0 => Ok(self.len),
            e => Err(Error::Win32(e)),
        }
    }

    /// The outcome if the operation has completed, `None` while it is pending.
    ///
    /// A waiting task looks, leaves its waker, and looks again: the completion
    /// may have landed between the first look and the registration, in which
    /// case nobody will wake it.
    pub fn poll_complete(&self) -> (r: Option<Result<u32>>)
        ensures
            r == self.polled(),
    {
        if self.is_completed() {
            Some(self.result())
        } else {
            None
        }
    }

    /// Put finished state back into its starting state so it can be reused.
    pub fn reset(&mut self)
        ensures
            *final(self) == Self::fresh(),
    {
        self.completed = false;
        self.err = 0;
        self.len = 0;
    }
}

/// The status to record for a dequeued completion packet: zero if the kernel
/// reports success, otherwise the Win32 code inside its `HRESULT`.
pub fn completion_error(failure: Option<i32>) -> (r: u32)
    ensures
        r == match failure {
            None => 0,
            Some(hresult) => error::win32_of_hresult(hresult),
        },
{
    match failure {
        None => 0,
        Some(hresult) => match Error::from_hresult(hresult).win32_code() {
            Some(code) => code,
            None => 0,
        },
    }
}

/// What the submitter of an operation does next.
pub enum Finish {
    /// The operation is over: reclaim the reference handed to the kernel, give
    /// the state back to the pool, and report the result.
    Done(Result<u32>),
    /// A completion packet will arrive: wait for it, then give the state back.
    /// The completion thread reclaims the reference.
    Await,
}

/// Whether a completion packet arrives for a submission that returned `ec`.
///
/// A queued operation posts one. An operation that completed inline posts one
/// too, unless the handle suppresses it. A refused operation posts none.
pub open spec fn packet_posted(ec: u32, skip_on_success: bool) -> bool {
    ec == ERROR_IO_PENDING || (ec == 0 && !skip_on_success)
}

/// How a submission that returned `ec` is resolved, where `reported` is the
/// byte count the kernel wrote on the spot.
pub open spec fn finished(ec: u32, skip_on_success: bool, reported: u32) -> Finish {
    if packet_posted(ec, skip_on_success) {
        Finish::Await
    } else {
        Finish::Done(outcome(ec, reported))
    }
}

/// Resolve an operation from the status code that its submission returned.
/// `skip_on_success` tells whether the handle posts no packet for operations
/// that complete inline, and `reported` is the byte count that the kernel
/// wrote.
pub fn finish(ec: u32, skip_on_success: bool, reported: u32) -> (r: Finish)
    ensures
        r == finished(ec, skip_on_success, reported),
{
    if ec == 0 && skip_on_success {
        Finish::Done(Ok(reported))
    } else if ec == 0 || ec == ERROR_IO_PENDING {
        Finish::Await
    } else {
        Finish::Done(Err(Error::Win32(ec)))
    }
}

/// The recycled states in a queue, oldest first, each by its number.
pub uninterp spec fn queued_ops(queue: ArrayQueue<u64>) -> Seq<u64>;

/// How many states a queue was made for.
pub uninterp spec fn op_slots(queue: ArrayQueue<u64>) -> nat;

/// An empty queue with `slots` places, from `ArrayQueue::new`, which panics
/// without places or where the places (at most 32 bytes each) cannot be
/// allocated.
#[verifier::external_body]
fn new_op_queue(slots: usize) -> (r: ArrayQueue<u64>)
    requires
        0 < slots,
        slots * 32 <= isize::MAX,
    ensures
        queued_ops(r) == Seq::<u64>::empty(),
        op_slots(r) == slots,
{
    ArrayQueue::new(slots)
}

/// Adds a state behind the others, through `ArrayQueue::push`, which refuses it
/// when every place is taken.
#[verifier::external_body]
fn push_op(queue: &mut ArrayQueue<u64>, id: u64) -> (kept: bool)
    ensures
        kept == (queued_ops(*old(queue)).len() < op_slots(*old(queue))),
        op_slots(*final(queue)) == op_slots(*old(queue)),
        queued_ops(*final(queue)) == if kept {
            queued_ops(*old(queue)).push(id)
        } else {
            queued_ops(*old(queue))
        },
{
    queue.push(id).is_ok()
}

/// Takes the oldest state out, through `ArrayQueue::pop`, which returns `None`
/// from an empty queue.
#[verifier::external_body]
fn pop_op(queue: &mut ArrayQueue<u64>) -> (r: Option<u64>)
    ensures
        op_slots(*final(queue)) == op_slots(*old(queue)),
        match r {
            None => queued_ops(*old(queue)).len() == 0 && queued_ops(*final(queue)) == queued_ops(
                *old(queue),
            ),
            Some(id) => queued_ops(*old(queue)).len() > 0 && id == queued_ops(*old(queue))[0]
                && queued_ops(*final(queue)) == queued_ops(*old(queue)).drop_first(),
        },
{
    queue.pop()
}

/// Free list of finished completion states, each known by a number.
///
/// Every operation needs one, so without recycling the server would do a heap
/// allocation per receive, per body chunk and per response.
pub struct OpPool {
    free: ArrayQueue<u64>,
    next: u64,
    out: Ghost<Set<u64>>,
}

/// What an [`OpPool`] has recycled and handed out.
pub struct OpPoolView {
    /// The states that wait for reuse, oldest first.
    pub free: Seq<u64>,
    /// How many states may wait.
    pub slots: nat,
    /// The number of the next fresh state.
    pub next: nat,
    /// The states that are in use.
    pub out: Set<u64>,
}

impl View for OpPool {
    type V = OpPoolView;

    closed spec fn view(&self) -> OpPoolView {
        OpPoolView {
            free: queued_ops(self.free),
            slots: op_slots(self.free),
            next: self.next as nat,
            out: self.out@,
        }
    }
}

impl OpPoolView {
    /// No state waits twice or is both waiting and in use, and no fresh number
    /// has been given out before.
    pub open spec fn wf(self) -> bool {
        &&& 0 < self.slots
        &&& self.free.len() <= self.slots
        &&& self.free.no_duplicates()
        &&& forall|i: int|
            0 <= i < self.free.len() ==> #[trigger] self.free[i] < self.next && !self.out.contains(
                self.free[i],
            )
        &&& forall|id: u64| #[trigger] self.out.contains(id) ==> id < self.next
    }

    /// There is a number left for another state.
    pub open spec fn can_take(self) -> bool {
        self.next < u64::MAX
    }

    /// The number that the next operation gets.
    pub open spec fn upcoming(self) -> u64 {
        if self.free.len() > 0 {
            self.free[0]
        } else {
            self.next as u64
        }
    }
}

impl OpPool {
    /// A pool that keeps up to `slots` states, at least one.
    pub fn new(slots: usize) -> (r: Self)
        requires
            slots * 32 <= isize::MAX,
        ensures
            r@.wf(),
            r@.free == Seq::<u64>::empty(),
            r@.slots == if slots == 0 {
                1
            } else {
                slots as nat
            },
            r@.next == 0,
            r@.out == Set::<u64>::empty(),
    {
        let places = if slots == 0 {
            1
        } else {
            slots
        };
        OpPool { free: new_op_queue(places), next: 0, out: Ghost(Set::empty()) }
    }

    /// Whether there is a number left for another state.
    pub fn can_take(&self) -> (r: bool)
        ensures
            r == self@.can_take(),
    {
        self.next < u64::MAX
    }

    /// Hand out a state: the one that has waited longest, or a fresh one. It is
    /// never one that is still in use.
    pub fn take(&mut self) -> (r: u64)
        requires
            old(self)@.wf(),
            old(self)@.can_take(),
        ensures
            final(self)@.wf(),
            r == old(self)@.upcoming(),
            !old(self)@.out.contains(r),
            final(self)@.out == old(self)@.out.insert(r),
            final(self)@.slots == old(self)@.slots,
            final(self)@.free == if old(self)@.free.len() > 0 {
                old(self)@.free.drop_first()
            } else {
                old(self)@.free
            },
            final(self)@.next == if old(self)@.free.len() > 0 {
                old(self)@.next
            } else {
                old(self)@.next + 1
            },
    {
        let ghost before = self@;
        let id = match pop_op(&mut self.free) {
            Some(id) => id,
            None => {
                let id = self.next;
                self.next = id + 1;
                id
            },
        };
        self.out = Ghost(self.out@.insert(id));
        proof {
            assert forall|other: u64| #[trigger] self@.out.contains(other) implies other
                < self@.next by {
                if other != id {
                    assert(before.out.contains(other));
                }
            }
            if before.free.len() > 0 {
                assert(before.free[0] == id);
                assert forall|i: int| 0 <= i < self@.free.len() implies #[trigger] self@.free[i]
                    < self@.next && !self@.out.contains(self@.free[i]) by {
                    assert(self@.free[i] == before.free[i + 1]);
                }
                assert(self@.free.no_duplicates()) by {
                    assert forall|i: int, j: int|
                        0 <= i < self@.free.len() && 0 <= j < self@.free.len() && i
                            != j implies self@.free[i] != self@.free[j] by {
                        assert(self@.free[i] == before.free[i + 1]);
                        assert(self@.free[j] == before.free[j + 1]);
                    }
                }
            }
        }
        id
    }

    /// Give a state back once its operation is over. `unique` tells whether the
    /// giver holds the only reference to it: a second one means that a
    /// completion thread has not finished with it yet, and the state is let go
    /// rather than reused underneath. Returns whether it waits for reuse.
    pub fn give_back(&mut self, id: u64, unique: bool) -> (kept: bool)
        requires
            old(self)@.wf(),
            old(self)@.out.contains(id),
        ensures
            final(self)@.wf(),
            kept == (unique && old(self)@.free.len() < old(self)@.slots),
            final(self)@.out == old(self)@.out.remove(id),
            final(self)@.slots == old(self)@.slots,
            final(self)@.next == old(self)@.next,
            final(self)@.free == if kept {
                old(self)@.free.push(id)
            } else {
                old(self)@.free
            },
    {
        let ghost before = self@;
        self.out = Ghost(self.out@.remove(id));
        if !unique {
            return false;
        }
        let kept = push_op(&mut self.free, id);
        proof {
            assert forall|i: int| 0 <= i < before.free.len() implies before.free[i] != id by {
                assert(!before.out.contains(before.free[i]));
            }
        }
        kept
    }
}

/// A state that is in use is never the next one handed out.
pub proof fn law_states_in_use_are_not_reused(pool: OpPoolView, id: u64)
    requires
        pool.wf(),
        pool.can_take(),
        pool.out.contains(id),
    ensures
        pool.upcoming() != id,
{
    if pool.free.len() > 0 {
        assert(!pool.out.contains(pool.free[0]));
    }
}

/// The reference handed to the kernel is reclaimed exactly once: by the
/// submitter if and only if no completion packet arrives, and otherwise by the
/// completion thread that dequeues the packet.
pub proof fn law_reference_is_reclaimed_once(ec: u32, skip_on_success: bool, reported: u32)
    ensures
        finished(ec, skip_on_success, reported) is Done <==> !packet_posted(ec, skip_on_success),
        ec != 0 && ec != ERROR_IO_PENDING ==> finished(ec, skip_on_success, reported)
            == Finish::Done(Err(Error::Win32(ec))),
        ec == 0 && skip_on_success ==> finished(ec, skip_on_success, reported) == Finish::Done(
            Ok(reported),
        ),
{
}

// ---------------------------------------------------------------------------
// The completion handshake
// ---------------------------------------------------------------------------

/// Where the waiting task stands. A look reads the flag first, and the values
/// only if it is set.
pub enum Stage {
    /// About to read the flag.
    Look,
    /// About to leave its waker.
    Register,
    /// About to read the flag again.
    LookAgain,
    /// About to read the status.
    ReadErr,
    /// About to read the byte count; this status has been read.
    ReadLen(u32),
    /// Asleep until its waker is used.
    Asleep,
    /// Holding the outcome.
    Got(Result<u32>),
}

/// How far the completion path has come.
pub enum Progress {
    Nothing,
    /// The status has been written.
    Status,
    /// The byte count has been written too.
    Count,
    /// The flag has been set too.
    Flag,
    /// Whoever waits has been woken too.
    Woke,
}

/// The waiting task and the completion path, side by side.
pub struct Handshake {
    pub wrap: OverlappedWrap,
    pub progress: Progress,
    /// A waker has been left and not been used yet.
    pub registered: bool,
    /// The waker has been used since the task fell asleep.
    pub woken: bool,
    pub stage: Stage,
}

/// One atomic step of either side.
pub enum Step {
    /// The waiting task moves on; asleep, it moves only if it was woken.
    Task,
    /// The waiting task is polled for some other reason, while it sleeps or after
    /// it got the outcome.
    Poll,
    /// The completion path moves on.
    Complete,
}

impl Handshake {
    /// Before either side has moved.
    pub open spec fn start() -> Handshake {
        Handshake {
            wrap: OverlappedWrap::fresh(),
            progress: Progress::Nothing,
            registered: false,
            woken: false,
            stage: Stage::Look,
        }
    }

    /// The handshake after one step, where the completion is `err` and `len`.
    /// The kernel posts at most one packet per operation, so there is no second
    /// completion.
    pub open spec fn after(self, step: Step, err: u32, len: u32) -> Handshake {
        match step {
            Step::Task => match self.stage {
                Stage::Look => Handshake {
                    stage: if self.wrap.completed {
                        Stage::ReadErr
                    } else {
                        Stage::Register
                    },
                    ..self
                },
                Stage::Register => Handshake {
                    registered: true,
                    stage: Stage::LookAgain,
                    ..self
                },
                Stage::LookAgain => Handshake {
                    stage: if self.wrap.completed {
                        Stage::ReadErr
                    } else {
                        Stage::Asleep
                    },
                    ..self
                },
                Stage::ReadErr => Handshake { stage: Stage::ReadLen(self.wrap.err), ..self },
                Stage::ReadLen(e) => Handshake {
                    stage: Stage::Got(outcome(e, self.wrap.len)),
                    ..self
                },
                Stage::Asleep => if self.woken {
                    Handshake { woken: false, stage: Stage::Look, ..self }
                } else {
                    self
                },
                Stage::Got(r) => self,
            },
            Step::Poll => match self.stage {
                Stage::Asleep => Handshake { stage: Stage::Look, ..self },
                Stage::Got(r) => Handshake { stage: Stage::Look, ..self },
                _ => self,
            },
            Step::Complete => match self.progress {
                Progress::Nothing => Handshake {
                    wrap: self.wrap.with_err(err),
                    progress: Progress::Status,
                    ..self
                },
                Progress::Status => Handshake {
                    wrap: self.wrap.with_len(len),
                    progress: Progress::Count,
                    ..self
                },
                Progress::Count => Handshake {
                    wrap: self.wrap.flagged(),
                    progress: Progress::Flag,
                    ..self
                },
                Progress::Flag => Handshake {
                    registered: false,
                    woken: self.woken || self.registered,
                    progress: Progress::Woke,
                    ..self
                },
                Progress::Woke => self,
            },
        }
    }

    /// The handshake after the steps of `schedule`, in order.
    pub open spec fn run(schedule: Seq<Step>, err: u32, len: u32) -> Handshake
        decreases schedule.len(),
    {
        if schedule.len() == 0 {
            Handshake::start()
        } else {
            Handshake::run(schedule.drop_last(), err, len).after(schedule.last(), err, len)
        }
    }

    /// The handshake after the task has moved `n` times by itself.
    pub open spec fn moved(self, n: nat, err: u32, len: u32) -> Handshake
        decreases n,
    {
        if n == 0 {
            self
        } else {
            self.after(Step::Task, err, len).moved((n - 1) as nat, err, len)
        }
    }

    /// What holds between any two steps.
    pub open spec fn holds(self, err: u32, len: u32) -> bool {
        &&& self.wrap.completed <==> self.progress is Flag || self.progress is Woke
        &&& self.progress is Status ==> self.wrap.err == err
        &&& self.progress is Count || self.wrap.completed ==> self.wrap.err == err && self.wrap.len
            == len
        &&& self.stage is ReadErr ==> self.wrap.completed
        &&& self.stage matches Stage::ReadLen(e) ==> self.wrap.completed && e == err
        &&& self.stage matches Stage::Got(r) ==> self.wrap.completed && r == outcome(err, len)
        &&& (self.stage is Asleep || self.stage is LookAgain) && !(self.progress is Woke)
            ==> self.registered
        &&& self.stage is Asleep && self.progress is Woke ==> self.woken
    }
}

/// No outcome is seen half-written. The completion writes the status, the byte
/// count and the flag one after the other, and in whatever order its steps and
/// those of the waiting task fall, the task gets nothing or the whole outcome,
/// and the same one every time it polls.
pub proof fn law_no_outcome_is_half_written(schedule: Seq<Step>, err: u32, len: u32)
    ensures
        Handshake::run(schedule, err, len).stage matches Stage::Got(r) ==> r == outcome(err, len),
{
    lemma_handshake(schedule, err, len);
}

/// No completion is missed. Once the flag is set, a look gets the outcome in
/// three moves, and a task that fell asleep before that has been woken by the
/// time the completion is through; four moves then get it the outcome, wherever
/// it stood.
pub proof fn law_no_completion_is_missed(schedule: Seq<Step>, err: u32, len: u32)
    ensures
        ({
            let h = Handshake::run(schedule, err, len);
            &&& h.wrap.completed && (h.stage is Look || h.stage is LookAgain) ==> h.moved(
                3,
                err,
                len,
            ).stage == Stage::Got(outcome(err, len))
            &&& h.stage is Asleep && h.progress is Woke ==> h.woken
            &&& h.progress is Woke ==> h.moved(4, err, len).stage == Stage::Got(outcome(err, len))
        }),
{
    lemma_handshake(schedule, err, len);
    reveal_with_fuel(Handshake::moved, 5);
}

proof fn lemma_handshake(schedule: Seq<Step>, err: u32, len: u32)
    ensures
        Handshake::run(schedule, err, len).holds(err, len),
    decreases schedule.len(),
{
    if schedule.len() > 0 {
        lemma_handshake(schedule.drop_last(), err, len);
    }
}

/// What a completion recorded is what a look at it shows from then on: the byte
/// count if the status is zero, and the status as an error otherwise. Before that,
/// and after the state was put back, a look shows nothing.
pub proof fn law_a_look_shows_what_was_recorded(
    wrap: &mut OverlappedWrap,
    err: u32,
    len: u32,
    fresh: OverlappedWrap,
    before: Option<Result<u32>>,
    after: Option<Result<u32>>,
    result: Result<u32>,
    done: bool,
)
    requires
        call_ensures(OverlappedWrap::new, (), fresh),
        call_ensures(OverlappedWrap::poll_complete, (&fresh,), before),
        call_ensures(OverlappedWrap::complete, (wrap, err, len), ()),
        call_ensures(OverlappedWrap::poll_complete, (&*final(wrap),), after),
        call_ensures(OverlappedWrap::result, (&*final(wrap),), result),
        call_ensures(OverlappedWrap::is_completed, (&*final(wrap),), done),
    ensures
        before is None,
        done,
        after == Some(result),
        err == 0 ==> result == Ok::<u32, Error>(len),
        err != 0 ==> result == Err::<u32, Error>(Error::Win32(err)),
{
}

/// State that was put back is as fresh as new state, whatever it held.
pub proof fn law_state_is_reset(
    wrap: &mut OverlappedWrap,
    fresh: OverlappedWrap,
    shown: Option<Result<u32>>,
)
    requires
        call_ensures(OverlappedWrap::new, (), fresh),
        call_ensures(OverlappedWrap::reset, (wrap,), ()),
        call_ensures(OverlappedWrap::poll_complete, (&*final(wrap),), shown),
    ensures
        *final(wrap) == fresh,
        shown is None,
{
}

/// Each store writes its own part of the state and leaves the others, so that a
/// look shows nothing until the flag is stored.
pub proof fn law_each_store_writes_one_part(
    a: &mut OverlappedWrap,
    b: &mut OverlappedWrap,
    c: &mut OverlappedWrap,
    err: u32,
    len: u32,
)
    requires
        call_ensures(OverlappedWrap::store_err, (a, err), ()),
        call_ensures(OverlappedWrap::store_len, (b, len), ()),
        call_ensures(OverlappedWrap::store_flag, (c,), ()),
    ensures
        final(a).err == err && final(a).len == old(a).len && final(a).completed == old(
            a,
        ).completed,
        final(b).len == len && final(b).err == old(b).err && final(b).completed == old(
            b,
        ).completed,
        final(c).completed && final(c).err == old(c).err && final(c).len == old(c).len,
{
}

/// A submission is awaited exactly if it was queued, or completed on the spot on a
/// handle that posts a packet all the same. Otherwise it is over, with the byte
/// count that the kernel wrote or with its code as the error.
pub proof fn law_what_becomes_of_a_submission(
    ec: u32,
    skip_on_success: bool,
    reported: u32,
    r: Finish,
)
    requires
        call_ensures(finish, (ec, skip_on_success, reported), r),
    ensures
        r is Await <==> ec == 997 || (ec == 0 && !skip_on_success),
        r matches Finish::Done(outcome) ==> {
            &&& ec == 0 ==> outcome == Ok::<u32, Error>(reported)
            &&& ec != 0 ==> outcome == Err::<u32, Error>(Error::Win32(ec))
        },
{
}

/// A packet that the kernel reports as a success is recorded as zero, and any other
/// by the code inside its `HRESULT`.
pub proof fn law_the_status_that_is_recorded(failure: Option<i32>, code: u32, r: u32)
    requires
        call_ensures(completion_error, (failure,), r),
    ensures
        failure is None ==> r == 0,
        failure matches Some(hresult) ==> r < 0x1_0000 && (hresult - r) % 0x1_0000 == 0,
        code < 0x1_0000 && failure == Some((code + 0x8007_0000 - 0x1_0000_0000) as i32) ==> r
            == code,
{
}

/// A state that is handed out is the one that has waited longest, or a fresh one if
/// none waits, and never one that is in use. From then on it is in use, and the
/// others wait as before.
pub proof fn law_states_are_handed_out_oldest_first(pool: &mut OpPool, id: u64)
    requires
        old(pool)@.wf(),
        old(pool)@.next < u64::MAX,
        call_ensures(OpPool::take, (pool,), id),
    ensures
        ({
            let (before, after) = (old(pool)@, final(pool)@);
            &&& !before.out.contains(id)
            &&& after.out == before.out.insert(id)
            &&& before.free.len() > 0 ==> before.free == seq![id] + after.free && after.next
                == before.next
            &&& before.free.len() == 0 ==> id == before.next && after.next == before.next + 1
                && after.free.len() == 0
            &&& after.slots == before.slots
        }),
{
    let (before, after) = (old(pool)@, final(pool)@);
    if before.free.len() > 0 {
        assert(before.free =~= seq![id] + after.free);
    }
}

/// A state that comes back is in use no longer. It waits behind the others if its
/// giver holds the only reference and a place is free, and is let go otherwise.
pub proof fn law_states_wait_in_line(pool: &mut OpPool, id: u64, unique: bool, kept: bool)
    requires
        call_ensures(OpPool::give_back, (pool, id, unique), kept),
    ensures
        ({
            let (before, after) = (old(pool)@, final(pool)@);
            &&& kept <==> unique && before.free.len() < before.slots
            &&& kept ==> after.free == before.free + seq![id]
            &&& !kept ==> after.free == before.free
            &&& after.out == before.out.remove(id)
            &&& after.slots == before.slots
            &&& after.next == before.next
        }),
{
    assert(old(pool)@.free.push(id) =~= old(pool)@.free + seq![id]);
}

/// A pool starts with nothing in it, has the places it is asked for, but one at
/// least, and can hand out a state as long as a number is left.
pub proof fn law_a_pool_of_states_starts_empty(slots: usize, pool: OpPool, any: OpPool, can: bool)
    requires
        call_ensures(OpPool::new, (slots,), pool),
        call_ensures(OpPool::can_take, (&any,), can),
    ensures
        pool@.free.len() == 0,
        forall|id: u64| !pool@.out.contains(id),
        pool@.slots >= 1,
        slots >= 1 ==> pool@.slots == slots,
        slots == 0 ==> pool@.slots == 1,
        can <==> any@.next != u64::MAX,
{
}

} // verus!
