//! The decisions of a dedicated I/O completion port for http.sys request
//! queues.
//!
//! A fixed set of completion threads drains the port, a batch of packets at a
//! time, so a burst of ready requests is dequeued in one call instead of one
//! call each.

use crate::error::Error;
use crate::text;
use vstd::prelude::*;

verus! {

/// Completion packets dequeued at a time.
pub const BATCH: usize = 64;

/// Completion key of the sentinel packets that stop the completion threads. A
/// real key is a handle value, and this is `INVALID_HANDLE_VALUE`, so the two
/// can never collide.
pub const SHUTDOWN_KEY: usize = usize::MAX;

/// `FILE_SKIP_COMPLETION_PORT_ON_SUCCESS`: inline completions post no packet.
pub const FILE_SKIP_COMPLETION_PORT_ON_SUCCESS: u8 = 0x1;

/// `FILE_SKIP_SET_EVENT_ON_HANDLE`: nobody waits on the handle itself.
pub const FILE_SKIP_SET_EVENT_ON_HANDLE: u8 = 0x2;

/// Win32 `ERROR_NOT_ENOUGH_MEMORY`.
pub const ERROR_NOT_ENOUGH_MEMORY: u32 = 8;

/// How many completion threads a port gets when `threads` are asked for: at
/// least one.
pub fn thread_count(threads: usize) -> (r: usize)
    ensures
        r == if threads == 0 {
            1
        } else {
            threads
        },
{
    if threads == 0 {
        1
    } else {
        threads
    }
}

/// The name of the completion thread with index `i`.
pub fn thread_name(i: usize) -> (r: String)
    ensures
        r@ == "httpsys-iocp-"@ + text::decimal(i as nat),
{
    let mut name = "httpsys-iocp-".to_owned();
    text::push_decimal(&mut name, i as u64);
    name
}

/// The unsigned reading of a signed status code.
pub open spec fn unsigned(code: i32) -> u32 {
    if code >= 0 {
        code as u32
    } else {
        (code + 0x1_0000_0000) as u32
    }
}

/// The error for a completion thread that could not be started, given the code
/// that the system gave for it, if it gave one.
pub fn spawn_error(raw_os_error: Option<i32>) -> (r: Error)
    ensures
        r == Error::Win32(
            match raw_os_error {
                Some(code) => unsigned(code),
                None => ERROR_NOT_ENOUGH_MEMORY,
            },
        ),
{
    match raw_os_error {
        Some(code) => {
            let wide: i64 = if code >= 0 {
                code as i64
            } else {
                code as i64 + 0x1_0000_0000i64
            };
            Error::Win32(wide as u32)
        },
        None => Error::Win32(ERROR_NOT_ENOUGH_MEMORY),
    }
}

/// What a completion thread does with a batch of packets.
#[derive(Debug)]
pub struct Batch {
    /// Which packets to deliver, by their index in the batch.
    pub deliver: Vec<usize>,
    /// Whether to leave once they are delivered.
    pub stop: bool,
    /// How many sentinels to post again: the batch took them from other threads.
    pub surplus: usize,
}

/// How many of the completion keys are sentinels.
pub open spec fn sentinels(keys: Seq<usize>) -> nat
    decreases keys.len(),
{
    if keys.len() == 0 {
        0
    } else {
        sentinels(keys.drop_last()) + if keys.last() == SHUTDOWN_KEY {
            1nat
        } else {
            0nat
        }
    }
}

impl Batch {
    /// Whether this is what to do with packets of these completion keys: every
    /// packet but the sentinels is delivered, in order and once, a sentinel stops
    /// the thread, and any further ones are left for other threads.
    pub open spec fn answers(self, keys: Seq<usize>) -> bool {
        let deliver = self.deliver@;
        &&& forall|j: int|
            0 <= j < deliver.len() ==> {
                &&& (#[trigger] deliver[j]) < keys.len()
                &&& keys[deliver[j] as int] != SHUTDOWN_KEY
            }
        &&& forall|j: int, k: int| 0 <= j < k < deliver.len() ==> deliver[j] < deliver[k]
        &&& forall|i: int|
            0 <= i < keys.len() && keys[i] != SHUTDOWN_KEY ==> #[trigger] deliver.contains(
                i as usize,
            )
        &&& self.stop <==> sentinels(keys) > 0
        &&& self.surplus == if self.stop {
            sentinels(keys) - 1
        } else {
            0
        }
    }
}

/// Decides what to do with a batch of packets, given their completion keys. The
/// batch is finished before the thread leaves, so that no completion is dropped
/// while someone is still waiting for it.
pub fn split_batch(keys: &[usize]) -> (r: Batch)
    ensures
        r.answers(keys@),
{
    let mut deliver: Vec<usize> = Vec::new();
    let mut found: usize = 0;
    let mut i: usize = 0;
    assert(keys@.take(0) =~= Seq::empty());
    while i < keys.len()
        invariant
            i <= keys.len(),
            forall|j: int|
                0 <= j < deliver@.len() ==> {
                    &&& (#[trigger] deliver@[j]) < i
                    &&& keys@[deliver@[j] as int] != SHUTDOWN_KEY
                },
            forall|j: int, k: int| 0 <= j < k < deliver@.len() ==> deliver@[j] < deliver@[k],
            forall|m: int|
                0 <= m < i && keys@[m] != SHUTDOWN_KEY ==> #[trigger] deliver@.contains(m as usize),
            found <= i,
            found == sentinels(keys@.take(i as int)),
        decreases keys@.len() - i,
    {
        let ghost before = deliver@;
        assert(keys@.take(i + 1).drop_last() =~= keys@.take(i as int));
        if keys[i] == SHUTDOWN_KEY {
            found += 1;
        } else {
            deliver.push(i);
            assert forall|m: int|
                0 <= m < i + 1 && keys@[m] != SHUTDOWN_KEY implies #[trigger] deliver@.contains(
                m as usize,
            ) by {
                if m == i {
                    assert(deliver@[before.len() as int] == i);
                } else {
                    assert(before.contains(m as usize));
                    let j = choose|j: int| 0 <= j < before.len() && before[j] == m as usize;
                    assert(deliver@[j] == m as usize);
                }
            }
        }
        i += 1;
    }
    assert(keys@.take(keys@.len() as int) =~= keys@);
    Batch {
        deliver,
        stop: found > 0,
        surplus: if found > 0 {
            found - 1
        } else {
            0
        },
    }
}

/// A batch has one answer: two ways to deliver it deliver the same packets in
/// the same order. So nothing is lost, nothing is delivered twice, and a
/// sentinel in the batch changes nothing for the packets around it.
pub proof fn law_a_batch_has_one_answer(keys: Seq<usize>, a: Batch, b: Batch)
    requires
        keys.len() <= usize::MAX,
        a.answers(keys),
        b.answers(keys),
    ensures
        a.deliver@ == b.deliver@,
        a.stop == b.stop,
        a.surplus == b.surplus,
{
    lemma_no_longer(keys, a, b, a.deliver@.len());
    lemma_no_longer(keys, b, a, b.deliver@.len());
    assert(a.deliver@ =~= b.deliver@);
}

proof fn lemma_no_longer(keys: Seq<usize>, a: Batch, b: Batch, n: nat)
    requires
        keys.len() <= usize::MAX,
        a.answers(keys),
        b.answers(keys),
        n <= a.deliver@.len(),
    ensures
        n <= b.deliver@.len(),
        forall|j: int| 0 <= j < n ==> a.deliver@[j] == b.deliver@[j],
    decreases n,
{
    if n > 0 {
        lemma_no_longer(keys, a, b, (n - 1) as nat);
        let x = a.deliver@[n - 1];
        assert(b.deliver@.contains(x as int as usize));
        let k = choose|k: int| 0 <= k < b.deliver@.len() && b.deliver@[k] == x;
        assert(k >= n - 1) by {
            if k < n - 1 {
                assert(a.deliver@[k] == b.deliver@[k]);
                assert(a.deliver@[k] < a.deliver@[n - 1]);
            }
        }
        if k > n - 1 {
            let y = b.deliver@[n - 1];
            assert(y < x);
            assert(a.deliver@.contains(y as int as usize));
            let m = choose|m: int| 0 <= m < a.deliver@.len() && a.deliver@[m] == y;
            if m < n - 1 {
                assert(a.deliver@[m] == b.deliver@[m]);
                assert(b.deliver@[m] < b.deliver@[n - 1]);
            } else if m > n - 1 {
                assert(a.deliver@[n - 1] < a.deliver@[m]);
            }
        }
    }
}

/// Threads that drain a port, and the sentinels that wait in it.
pub struct Draining {
    pub threads: nat,
    pub waiting: nat,
}

impl Draining {
    /// A port whose `n` threads have been told to stop, with a sentinel each.
    pub open spec fn told(n: nat) -> Draining {
        Draining { threads: n, waiting: n }
    }

    /// The port after one of its threads has dealt with a batch of these keys.
    pub open spec fn after(self, keys: Seq<usize>) -> Draining {
        let taken = sentinels(keys);
        if taken == 0 {
            self
        } else {
            Draining {
                threads: (self.threads - 1) as nat,
                waiting: (self.waiting - taken + (taken - 1)) as nat,
            }
        }
    }

    /// Whether a thread can dequeue such a batch: one is left, and the batch
    /// holds no more sentinels than there are.
    pub open spec fn can_deal(self, keys: Seq<usize>) -> bool {
        self.threads > 0 && sentinels(keys) <= self.waiting
    }

    /// The port after several batches.
    pub open spec fn after_all(self, batches: Seq<Seq<usize>>) -> Draining
        decreases batches.len(),
    {
        if batches.len() == 0 {
            self
        } else {
            self.after_all(batches.drop_last()).after(batches.last())
        }
    }

    /// Whether the batches can come, one after the other.
    pub open spec fn can_deal_all(self, batches: Seq<Seq<usize>>) -> bool
        decreases batches.len(),
    {
        batches.len() == 0 || (self.can_deal_all(batches.drop_last()) && self.after_all(
            batches.drop_last(),
        ).can_deal(batches.last()))
    }
}

/// How many of the batches stop the thread that dequeues them.
pub open spec fn stopping(batches: Seq<Seq<usize>>) -> nat
    decreases batches.len(),
{
    if batches.len() == 0 {
        0
    } else {
        stopping(batches.drop_last()) + if sentinels(batches.last()) > 0 {
            1nat
        } else {
            0nat
        }
    }
}

/// A completion thread always gets its sentinel: however the packets fall into
/// batches, as many sentinels wait as threads are left, so that `n` sentinels
/// stop `n` threads.
pub proof fn law_every_thread_gets_its_sentinel(n: nat, batches: Seq<Seq<usize>>)
    requires
        Draining::told(n).can_deal_all(batches),
    ensures
        stopping(batches) <= n,
        Draining::told(n).after_all(batches) == (Draining {
            threads: (n - stopping(batches)) as nat,
            waiting: (n - stopping(batches)) as nat,
        }),
    decreases batches.len(),
{
    if batches.len() > 0 {
        law_every_thread_gets_its_sentinel(n, batches.drop_last());
    }
}

/// Of a batch, exactly the packets with a key other than the largest are delivered,
/// in order and each once, wherever the others stand. The thread stops if there is
/// another, and all but one of those are posted again, so that every packet of the
/// batch is accounted for.
pub proof fn law_every_packet_is_accounted_for(keys: &[usize], batch: Batch, i: int, j: int)
    requires
        call_ensures(split_batch, (keys,), batch),
        keys@.len() <= usize::MAX,
    ensures
        0 <= i < keys@.len() ==> (keys@[i] != usize::MAX <==> batch.deliver@.contains(i as usize)),
        0 <= i < j < batch.deliver@.len() ==> batch.deliver@[i] < batch.deliver@[j],
        0 <= i < batch.deliver@.len() ==> batch.deliver@[i] < keys@.len(),
        batch.stop <==> exists|k: int| 0 <= k < keys@.len() && #[trigger] keys@[k] == usize::MAX,
        !batch.stop ==> batch.surplus == 0,
        batch.deliver@.len() + batch.surplus + if batch.stop {
            1int
        } else {
            0int
        } == keys@.len(),
{
    lemma_sentinel_there(keys@);
    lemma_accounted(keys@, batch.deliver@, keys@.len());
    if 0 <= i < keys@.len() && batch.deliver@.contains(i as usize) {
        let k = choose|k: int| 0 <= k < batch.deliver@.len() && batch.deliver@[k] == i as usize;
        assert(keys@[batch.deliver@[k] as int] != SHUTDOWN_KEY);
    }
}

proof fn lemma_sentinel_there(keys: Seq<usize>)
    ensures
        sentinels(keys) > 0 <==> exists|k: int|
            0 <= k < keys.len() && #[trigger] keys[k] == SHUTDOWN_KEY,
    decreases keys.len(),
{
    if keys.len() > 0 {
        let earlier = keys.drop_last();
        lemma_sentinel_there(earlier);
        if sentinels(earlier) > 0 {
            let k = choose|k: int| 0 <= k < earlier.len() && #[trigger] earlier[k] == SHUTDOWN_KEY;
            assert(keys[k] == SHUTDOWN_KEY);
        }
        if keys.last() == SHUTDOWN_KEY {
            assert(keys[keys.len() - 1] == SHUTDOWN_KEY);
        }
        if exists|k: int| 0 <= k < keys.len() && #[trigger] keys[k] == SHUTDOWN_KEY {
            let k = choose|k: int| 0 <= k < keys.len() && #[trigger] keys[k] == SHUTDOWN_KEY;
            if k < earlier.len() {
                assert(earlier[k] == SHUTDOWN_KEY);
            }
        }
    }
}

/// Ascending indices that are those of all the keys that are no sentinels are as
/// many as there are such keys.
proof fn lemma_accounted(keys: Seq<usize>, deliver: Seq<usize>, n: nat)
    requires
        keys.len() <= usize::MAX,
        n == keys.len(),
        forall|j: int|
            0 <= j < deliver.len() ==> {
                &&& (#[trigger] deliver[j]) < keys.len()
                &&& keys[deliver[j] as int] != SHUTDOWN_KEY
            },
        forall|j: int, k: int| 0 <= j < k < deliver.len() ==> deliver[j] < deliver[k],
        forall|i: int|
            0 <= i < keys.len() && keys[i] != SHUTDOWN_KEY ==> #[trigger] deliver.contains(
                i as usize,
            ),
    ensures
        deliver.len() + sentinels(keys) == keys.len(),
    decreases n,
{
    if n == 0 {
        if deliver.len() > 0 {
            assert(deliver[0] < keys.len());
        }
    } else {
        let earlier = keys.drop_last();
        let last = n - 1;
        if keys[last] == SHUTDOWN_KEY {
            assert forall|j: int| 0 <= j < deliver.len() implies {
                &&& (#[trigger] deliver[j]) < earlier.len()
                &&& earlier[deliver[j] as int] != SHUTDOWN_KEY
            } by {
                assert(deliver[j] != last);
            }
            assert forall|i: int| 0 <= i < earlier.len() && earlier[i] != SHUTDOWN_KEY implies
                #[trigger] deliver.contains(i as usize) by {
                assert(keys[i] != SHUTDOWN_KEY);
            }
            lemma_accounted(earlier, deliver, (n - 1) as nat);
        } else {
            assert(deliver.contains(last as usize));
            let at = choose|j: int| 0 <= j < deliver.len() && deliver[j] == last as usize;
            assert(at == deliver.len() - 1) by {
                if at < deliver.len() - 1 {
                    assert(deliver[at] < deliver[deliver.len() - 1]);
                }
            }
            let rest = deliver.drop_last();
            assert forall|j: int| 0 <= j < rest.len() implies {
                &&& (#[trigger] rest[j]) < earlier.len()
                &&& earlier[rest[j] as int] != SHUTDOWN_KEY
            } by {
                assert(rest[j] == deliver[j]);
                assert(deliver[j] < deliver[at]);
            }
            assert forall|i: int| 0 <= i < earlier.len() && earlier[i] != SHUTDOWN_KEY implies
                #[trigger] rest.contains(i as usize) by {
                assert(keys[i] != SHUTDOWN_KEY);
                assert(deliver.contains(i as usize));
                let j = choose|j: int| 0 <= j < deliver.len() && deliver[j] == i as usize;
                assert(rest[j] == i as usize);
            }
            lemma_accounted(earlier, rest, (n - 1) as nat);
        }
    }
}

/// A port gets the threads that it is asked for, but one at least, each named after
/// its index.
pub proof fn law_a_port_gets_its_threads(threads: usize, count: usize, i: usize, name: String)
    requires
        call_ensures(thread_count, (threads,), count),
        call_ensures(thread_name, (i,), name),
    ensures
        count >= 1,
        threads >= 1 ==> count == threads,
        threads == 0 ==> count == 1,
        name@ == "httpsys-iocp-"@ + text::decimal(i as nat),
{
}

/// A thread that could not be started is reported by the system's code, read
/// without a sign, and as a want of memory where the system gave none.
pub proof fn law_a_failed_start_shows_the_code(raw_os_error: Option<i32>, e: Error)
    requires
        call_ensures(spawn_error, (raw_os_error,), e),
    ensures
        e matches Error::Win32(shown) && match raw_os_error {
            Some(code) => shown == code || shown == code + 0x1_0000_0000,
            None => shown == 8,
        },
{
}

} // verus!
