//! Pooled receive buffers.
//!
//! Every receive needs the fixed header block followed by enough slack for the
//! kernel to write the raw URL, the header values and, when it is asked to copy
//! it, the entity body. Allocating and zeroing that memory per request is pure
//! overhead at high request rates, so buffers are recycled through a bounded
//! queue and only the header block is cleared on reuse.

use crate::text;
use crossbeam_queue::ArrayQueue;
use vstd::prelude::*;
use vstd::utf8;

verus! {

/// Room reserved for the request line and headers when deciding whether a
/// body can share the receive buffer with them.
pub const HEADER_SLACK: u64 = 8192;

/// Size of the header block, the kernel's `HTTP_REQUEST_V2`, on 64-bit
/// Windows.
pub const HEADER_BLOCK_BYTES: usize = 864;

/// The header block counted in words of eight bytes.
pub const HEADER_BLOCK_WORDS: usize = HEADER_BLOCK_BYTES / 8;

/// The fewest words a receive buffer has: the header block and one more.
pub const MIN_WORDS: usize = HEADER_BLOCK_WORDS + 1;

/// Which word of the header block holds the kernel's request id.
pub const REQUEST_ID_WORD: usize = 2;

/// How many words a buffer made for `bytes` bytes has.
pub open spec fn words_for(bytes: nat) -> nat {
    let words = (bytes + 7) / 8;
    if words < MIN_WORDS {
        MIN_WORDS as nat
    } else {
        words
    }
}

/// `n` words of zero.
pub open spec fn zeros(n: nat) -> Seq<u64> {
    Seq::new(n, |i: int| 0u64)
}

/// Whether a buffer for `bytes` bytes can be allocated at all: an allocation
/// holds at most `isize::MAX` bytes.
pub open spec fn allocatable(bytes: nat) -> bool {
    bytes + 7 <= isize::MAX
}

/// Whether `words` can back a receive buffer.
pub open spec fn buffer_words(words: Seq<u64>) -> bool {
    MIN_WORDS <= words.len() && words.len() * 8 <= isize::MAX
}

/// The size of a buffer as the kernel is told it, in 32 bits.
pub open spec fn told_capacity(words: Seq<u64>) -> u32 {
    ((words.len() * 8) % 0x1_0000_0000) as u32
}

/// The words of a buffer that had to hold `bytes` bytes: fresh ones if it was
/// too small, otherwise the ones it had.
pub open spec fn grown(words: Seq<u64>, bytes: nat) -> Seq<u64> {
    if bytes > told_capacity(words) {
        zeros(words_for(bytes))
    } else {
        words
    }
}

/// The body length that the text of a `Content-Length` header declares:
/// nothing without a header, and more than any buffer holds where the text is
/// not a number.
pub open spec fn declared_len(content_length: Seq<u8>) -> Option<u64> {
    if content_length.len() == 0 {
        None
    } else if utf8::valid_utf8(content_length) {
        match text::parsed_number(utf8::decode_utf8(content_length), u64::MAX as nat) {
            Some(n) => Some(n as u64),
            None => Some(u64::MAX),
        }
    } else {
        Some(u64::MAX)
    }
}

/// The buffer with its header block cleared. The slack behind it keeps its
/// contents.
pub open spec fn prepared(words: Seq<u64>) -> Seq<u64> {
    zeros(HEADER_BLOCK_WORDS as nat) + words.skip(HEADER_BLOCK_WORDS as int)
}

/// Backing store for one in-flight request, in words so that it has the
/// alignment that the header block needs.
pub struct RequestBuffer {
    words: Vec<u64>,
}

impl View for RequestBuffer {
    type V = Seq<u64>;

    closed spec fn view(&self) -> Seq<u64> {
        self.words@
    }
}

impl RequestBuffer {
    /// The buffer holds the header block and a word more.
    pub open spec fn wf(&self) -> bool {
        buffer_words(self@)
    }

    /// A zeroed buffer with room for `bytes` bytes, and for the header block in
    /// any case.
    pub fn new(bytes: usize) -> (r: Self)
        requires
            allocatable(bytes as nat),
        ensures
            r.wf(),
            r@ == zeros(words_for(bytes as nat)),
    {
        let mut words: usize = (bytes + 7) / 8;
        if words < MIN_WORDS {
            words = MIN_WORDS;
        }
        let store: Vec<u64> = vec![0u64; words];
        assert(store@ =~= zeros(words_for(bytes as nat)));
        RequestBuffer { words: store }
    }

    /// Total size handed to the kernel as the length of the receive buffer.
    pub fn capacity(&self) -> (r: u32)
        requires
            self.wf(),
        ensures
            r == told_capacity(self@),
    {
        let bytes: u64 = (self.words.len() * 8) as u64;
        (bytes % 0x1_0000_0000u64) as u32
    }

    /// Grow to at least `bytes`, discarding the old contents. A buffer that is
    /// large enough stays as it is.
    pub fn grow_to(&mut self, bytes: usize)
        requires
            old(self).wf(),
            allocatable(bytes as nat),
        ensures
            final(self).wf(),
            final(self)@ == grown(old(self)@, bytes as nat),
    {
        if bytes as u64 > self.capacity() as u64 {
            *self = RequestBuffer::new(bytes);
        }
    }

    /// Clear the header block, so that no field of it can be read stale if the
    /// kernel leaves it untouched. The slack behind it keeps its contents.
    pub fn prepare(&mut self)
        requires
            old(self).wf(),
        ensures
            final(self).wf(),
            final(self)@ == prepared(old(self)@),
    {
        let ghost before = self.words@;
        let mut i: usize = 0;
        while i < HEADER_BLOCK_WORDS
            invariant
                buffer_words(before),
                i <= HEADER_BLOCK_WORDS,
                self.words@ =~= zeros(i as nat) + before.skip(i as int),
            decreases HEADER_BLOCK_WORDS - i,
        {
            self.words.set(i, 0);
            i += 1;
        }
    }

    /// The kernel's request id.
    ///
    /// Meaningful at any point after [`RequestBuffer::prepare`]: the kernel
    /// fills it in even when the receive fails for want of room. Reads `0` if
    /// no receive has landed yet.
    pub fn request_id(&self) -> (r: u64)
        requires
            self.wf(),
        ensures
            r == self@[REQUEST_ID_WORD as int],
    {
        self.words[REQUEST_ID_WORD]
    }

    /// The memory that a receive writes into.
    pub fn words_mut(&mut self) -> (r: &mut [u64])
        ensures
            r@ == old(self)@,
            final(self)@ == final(r)@,
    {
        self.words.as_mut_slice()
    }
}

/// The body length that the raw text of a `Content-Length` header declares;
/// an absent header is an empty text.
pub fn declared_body_len(content_length: &[u8]) -> (r: Option<u64>)
    ensures
        r == declared_len(content_length@),
{
    if content_length.len() == 0 {
        return None;
    }
    match text::utf8_text(content_length) {
        None => Some(u64::MAX),
        Some(text) => match text::parse_number(text, u64::MAX) {
            Some(n) => Some(n),
            None => Some(u64::MAX),
        },
    }
}

/// The queue that recycled memory waits in: `crossbeam_queue::ArrayQueue`, a
/// bounded queue that hands its items out in the order they came in.
#[verifier::external_type_specification]
#[verifier::external_body]
#[verifier::reject_recursive_types(T)]
pub struct ExArrayQueue<T>(ArrayQueue<T>);

/// The buffers in a queue, oldest first, each as its words.
pub uninterp spec fn queued_buffers(queue: ArrayQueue<Vec<u64>>) -> Seq<Seq<u64>>;

/// How many buffers a queue was made for.
pub uninterp spec fn buffer_slots(queue: ArrayQueue<Vec<u64>>) -> nat;

/// An empty queue with `slots` places, from `ArrayQueue::new`, which panics
/// without places or where the places (at most 32 bytes each) cannot be
/// allocated.
#[verifier::external_body]
fn new_buffer_queue(slots: usize) -> (r: ArrayQueue<Vec<u64>>)
    requires
        0 < slots,
        slots * 32 <= isize::MAX,
    ensures
        queued_buffers(r) == Seq::<Seq<u64>>::empty(),
        buffer_slots(r) == slots,
{
    ArrayQueue::new(slots)
}

/// Adds a buffer behind the others, through `ArrayQueue::push`, which refuses
/// it when every place is taken; a refused buffer is freed.
#[verifier::external_body]
fn push_buffer(queue: &mut ArrayQueue<Vec<u64>>, words: Vec<u64>) -> (kept: bool)
    ensures
        kept == (queued_buffers(*old(queue)).len() < buffer_slots(*old(queue))),
        buffer_slots(*final(queue)) == buffer_slots(*old(queue)),
        queued_buffers(*final(queue)) == if kept {
            queued_buffers(*old(queue)).push(words@)
        } else {
            queued_buffers(*old(queue))
        },
{
    queue.push(words).is_ok()
}

/// Takes the oldest buffer out, through `ArrayQueue::pop`, which returns `None`
/// from an empty queue.
#[verifier::external_body]
fn pop_buffer(queue: &mut ArrayQueue<Vec<u64>>) -> (r: Option<Vec<u64>>)
    ensures
        buffer_slots(*final(queue)) == buffer_slots(*old(queue)),
        match r {
            None => queued_buffers(*old(queue)).len() == 0 && queued_buffers(*final(queue))
                == queued_buffers(*old(queue)),
            Some(words) => queued_buffers(*old(queue)).len() > 0 && words@ == queued_buffers(
                *old(queue),
            )[0] && queued_buffers(*final(queue)) == queued_buffers(*old(queue)).drop_first(),
        },
{
    queue.pop()
}

/// How many buffers wait, from `ArrayQueue::len`.
#[verifier::external_body]
fn count_buffers(queue: &ArrayQueue<Vec<u64>>) -> (r: usize)
    ensures
        r == queued_buffers(*queue).len(),
{
    queue.len()
}

/// Bounded free list of receive buffers.
pub struct BufferPool {
    free: ArrayQueue<Vec<u64>>,
    bytes: usize,
    max_bytes: usize,
}

/// What a [`BufferPool`] holds and was made for.
pub struct BufferPoolView {
    /// The words of the waiting buffers, oldest first.
    pub free: Seq<Seq<u64>>,
    /// How many buffers may wait.
    pub slots: nat,
    /// The size of a fresh buffer.
    pub bytes: nat,
    /// The size that a buffer may grow to.
    pub max_bytes: nat,
}

impl View for BufferPool {
    type V = BufferPoolView;

    closed spec fn view(&self) -> BufferPoolView {
        BufferPoolView {
            free: queued_buffers(self.free),
            slots: buffer_slots(self.free),
            bytes: self.bytes as nat,
            max_bytes: self.max_bytes as nat,
        }
    }
}

impl BufferPoolView {
    /// No more buffers wait than there are places, each of them can back a
    /// receive, and neither size passes what can be allocated.
    pub open spec fn wf(self) -> bool {
        &&& 0 < self.slots
        &&& self.free.len() <= self.slots
        &&& self.bytes <= self.max_bytes
        &&& allocatable(self.max_bytes)
        &&& forall|i: int| 0 <= i < self.free.len() ==> buffer_words(#[trigger] self.free[i])
    }

    /// The words that the next checkout hands out.
    pub open spec fn next(self) -> Seq<u64> {
        if self.free.len() > 0 {
            self.free[0]
        } else {
            zeros(words_for(self.bytes))
        }
    }

    /// The pool after a checkout.
    pub open spec fn taken(self) -> BufferPoolView {
        BufferPoolView {
            free: if self.free.len() > 0 {
                self.free.drop_first()
            } else {
                self.free
            },
            ..self
        }
    }

    /// The pool after `words` have come back: they wait, or they are gone if
    /// every place is taken.
    pub open spec fn returned(self, words: Seq<u64>) -> BufferPoolView {
        BufferPoolView {
            free: if self.free.len() < self.slots {
                self.free.push(words)
            } else {
                self.free
            },
            ..self
        }
    }
}

impl BufferPool {
    /// A pool that keeps up to `slots` buffers, at least one, of `bytes` bytes
    /// each, which may grow to `max_bytes`.
    pub fn new(slots: usize, bytes: usize, max_bytes: usize) -> (r: Self)
        requires
            slots * 32 <= isize::MAX,
            allocatable(bytes as nat),
            allocatable(max_bytes as nat),
        ensures
            r@.wf(),
            r@.free == Seq::<Seq<u64>>::empty(),
            r@.slots == if slots == 0 {
                1
            } else {
                slots as nat
            },
            r@.bytes == bytes,
            r@.max_bytes == if max_bytes < bytes {
                bytes
            } else {
                max_bytes
            },
    {
        let places = if slots == 0 {
            1
        } else {
            slots
        };
        BufferPool {
            free: new_buffer_queue(places),
            bytes,
            max_bytes: if max_bytes < bytes {
                bytes
            } else {
                max_bytes
            },
        }
    }

    /// Take a buffer, allocating one if the pool is empty.
    pub fn take(&mut self) -> (r: PooledBuffer)
        requires
            old(self)@.wf(),
        ensures
            final(self)@.wf(),
            final(self)@ == old(self)@.taken(),
            r.wf(),
            r@ == old(self)@.next(),
            r.spec_max_bytes() == old(self)@.max_bytes,
    {
        let ghost before = self@;
        let buffer = match pop_buffer(&mut self.free) {
            Some(words) => RequestBuffer { words },
            None => RequestBuffer::new(self.bytes),
        };
        proof {
            assert(self@.free =~= before.taken().free);
            assert forall|i: int| 0 <= i < self@.free.len() implies buffer_words(
                #[trigger] self@.free[i],
            ) by {
                if before.free.len() > 0 {
                    assert(buffer_words(before.free[i + 1]));
                }
            }
        }
        PooledBuffer { buffer, max_bytes: self.max_bytes }
    }

    /// Put a buffer back. A full pool means that more buffers are out than were
    /// planned for; the surplus one is freed.
    pub fn give_back(&mut self, buffer: PooledBuffer)
        requires
            old(self)@.wf(),
            buffer.wf(),
        ensures
            final(self)@.wf(),
            final(self)@ == old(self)@.returned(buffer@),
    {
        let _ = push_buffer(&mut self.free, buffer.buffer.words);
    }

    /// How many buffers wait for reuse.
    pub fn free_len(&self) -> (r: usize)
        ensures
            r == self@.free.len(),
    {
        count_buffers(&self.free)
    }
}

/// A buffer checked out of a [`BufferPool`].
pub struct PooledBuffer {
    buffer: RequestBuffer,
    max_bytes: usize,
}

impl View for PooledBuffer {
    type V = Seq<u64>;

    closed spec fn view(&self) -> Seq<u64> {
        self.buffer@
    }
}

/// The room that a buffer needs for a body of the declared length to arrive with
/// the headers: none in particular where nothing is declared, and nothing at all
/// where the body does not fit.
pub open spec fn inline_room(declared: Option<u64>, max_bytes: nat) -> Option<nat> {
    match declared {
        None => Some(0),
        Some(n) if n + HEADER_SLACK <= max_bytes => Some((n + HEADER_SLACK) as nat),
        Some(n) => None,
    }
}

impl PooledBuffer {
    /// The buffer can back a receive, and its ceiling can be allocated.
    pub open spec fn wf(&self) -> bool {
        buffer_words(self@) && allocatable(self.spec_max_bytes())
    }

    /// The size that this buffer may grow to.
    pub closed spec fn spec_max_bytes(&self) -> nat {
        self.max_bytes as nat
    }

    /// The buffer itself.
    pub fn buffer(&self) -> (r: &RequestBuffer)
        ensures
            r@ == self@,
    {
        &self.buffer
    }

    /// The buffer itself, to be filled or cleared.
    pub fn buffer_mut(&mut self) -> (r: &mut RequestBuffer)
        ensures
            r@ == old(self)@,
            final(self)@ == final(r)@,
            final(self).spec_max_bytes() == old(self).spec_max_bytes(),
    {
        &mut self.buffer
    }

    /// Grow to at least `bytes` before the next request is received, discarding
    /// the old contents. A buffer that is large enough stays as it is.
    pub fn grow_to(&mut self, bytes: usize)
        requires
            old(self).wf(),
            allocatable(bytes as nat),
        ensures
            final(self).wf(),
            final(self).spec_max_bytes() == old(self).spec_max_bytes(),
            final(self)@ == grown(old(self)@, bytes as nat),
    {
        self.buffer.grow_to(bytes);
    }

    /// The size this buffer needs for a body like the one just described to
    /// arrive inline with the next request's headers, `None` if such a body
    /// cannot. `content_length` is the raw text of the request's header, empty
    /// if it has none. The buffer still holds the request, so it is not resized
    /// yet.
    ///
    /// A slot that keeps receiving 64 KiB uploads settles on a 72 KiB buffer
    /// and goes back to one call per request, while a slot that only ever sees
    /// small requests keeps its small buffer.
    pub fn fit_body_inline(&self, content_length: &[u8]) -> (r: Option<usize>)
        requires
            self.wf(),
        ensures
            match r {
                Some(bytes) => inline_room(declared_len(content_length@), self.spec_max_bytes())
                    == Some(bytes as nat),
                None => inline_room(declared_len(content_length@), self.spec_max_bytes()) is None,
            },
    {
        let declared = match declared_body_len(content_length) {
            None => {
                return Some(0);
            },
            Some(n) => n,
        };
        let needed = declared.saturating_add(HEADER_SLACK);
        if needed > self.max_bytes as u64 {
            return None;
        }
        Some(needed as usize)
    }
}

/// The body buffers in a queue, oldest first, each as its bytes.
pub uninterp spec fn queued_bodies(queue: ArrayQueue<Vec<u8>>) -> Seq<Seq<u8>>;

/// How many body buffers a queue was made for.
pub uninterp spec fn body_slots(queue: ArrayQueue<Vec<u8>>) -> nat;

/// An empty queue with `slots` places, from `ArrayQueue::new`, which panics
/// without places or where the places (at most 32 bytes each) cannot be
/// allocated.
#[verifier::external_body]
fn new_body_queue(slots: usize) -> (r: ArrayQueue<Vec<u8>>)
    requires
        0 < slots,
        slots * 32 <= isize::MAX,
    ensures
        queued_bodies(r) == Seq::<Seq<u8>>::empty(),
        body_slots(r) == slots,
{
    ArrayQueue::new(slots)
}

/// Adds a body buffer behind the others, through `ArrayQueue::push`, which
/// refuses it when every place is taken; a refused buffer is freed.
#[verifier::external_body]
fn push_body(queue: &mut ArrayQueue<Vec<u8>>, data: Vec<u8>) -> (kept: bool)
    ensures
        kept == (queued_bodies(*old(queue)).len() < body_slots(*old(queue))),
        body_slots(*final(queue)) == body_slots(*old(queue)),
        queued_bodies(*final(queue)) == if kept {
            queued_bodies(*old(queue)).push(data@)
        } else {
            queued_bodies(*old(queue))
        },
{
    queue.push(data).is_ok()
}

/// Takes the oldest body buffer out, through `ArrayQueue::pop`, which returns
/// `None` from an empty queue.
#[verifier::external_body]
fn pop_body(queue: &mut ArrayQueue<Vec<u8>>) -> (r: Option<Vec<u8>>)
    ensures
        body_slots(*final(queue)) == body_slots(*old(queue)),
        match r {
            None => queued_bodies(*old(queue)).len() == 0 && queued_bodies(*final(queue))
                == queued_bodies(*old(queue)),
            Some(data) => queued_bodies(*old(queue)).len() > 0 && data@ == queued_bodies(
                *old(queue),
            )[0] && queued_bodies(*final(queue)) == queued_bodies(*old(queue)).drop_first(),
        },
{
    queue.pop()
}

/// How many body buffers wait, from `ArrayQueue::len`.
#[verifier::external_body]
fn count_bodies(queue: &ArrayQueue<Vec<u8>>) -> (r: usize)
    ensures
        r == queued_bodies(*queue).len(),
{
    queue.len()
}

/// Allocates room for exactly `additional` items more, through
/// `Vec::reserve_exact`, which leaves the items as they are. The allocator may
/// still give more; nothing is said of that.
#[verifier::external_body]
fn reserve_exact(data: &mut Vec<u8>, additional: usize)
    requires
        old(data)@.len() + additional <= isize::MAX,
    ensures
        final(data)@ == old(data)@,
{
    data.reserve_exact(additional)
}

/// Makes a buffer `len` bytes long, allocating no more than that.
fn lengthen(data: &mut Vec<u8>, len: usize)
    requires
        old(data)@.len() <= len <= isize::MAX,
    ensures
        final(data)@.len() == len,
        final(data)@.take(old(data)@.len() as int) == old(data)@,
{
    let ghost before = data@;
    reserve_exact(data, len - data.len());
    data.resize(len, 0);
    assert(data@.take(before.len() as int) =~= before);
}

/// The room of a buffer of `room` bytes that must hold `wanted`: twice what it
/// was if that is more, so that a body of unknown length is not copied on every
/// chunk.
pub open spec fn grown_room(room: nat, wanted: nat) -> nat {
    if wanted <= room {
        room
    } else if wanted < 2 * room <= isize::MAX {
        2 * room
    } else {
        wanted
    }
}

/// A body buffer checked out of a [`BodyPool`]: the bytes received so far, and
/// initialized room behind them for more.
pub struct PooledVec {
    data: Vec<u8>,
    filled: usize,
}

impl View for PooledVec {
    type V = Seq<u8>;

    /// The bytes received so far.
    closed spec fn view(&self) -> Seq<u8> {
        self.data@.take(self.filled as int)
    }
}

impl PooledVec {
    /// The received bytes lie inside the buffer.
    pub closed spec fn wf(&self) -> bool {
        self.filled <= self.data@.len()
    }

    /// What lies in the room behind the received bytes.
    pub closed spec fn spare(&self) -> Seq<u8> {
        self.data@.skip(self.filled as int)
    }

    /// How many bytes there is room for in all.
    pub open spec fn room(&self) -> nat {
        self@.len() + self.spare().len()
    }

    /// How many bytes have been received.
    pub fn len(&self) -> (r: usize)
        requires
            self.wf(),
        ensures
            r == self@.len(),
    {
        self.filled
    }

    /// Whether nothing has been received.
    pub fn is_empty(&self) -> (r: bool)
        requires
            self.wf(),
        ensures
            r == (self@.len() == 0),
    {
        self.filled == 0
    }

    /// How many bytes there is room for in all.
    pub fn capacity(&self) -> (r: usize)
        requires
            self.wf(),
        ensures
            r == self.room(),
    {
        self.data.len()
    }

    /// The bytes received so far.
    pub fn as_slice(&self) -> (r: &[u8])
        requires
            self.wf(),
        ensures
            r@ == self@,
    {
        let (received, _) = self.data.as_slice().split_at(self.filled);
        assert(received@ =~= self@);
        received
    }

    /// The room behind the received bytes, for a read to write into.
    pub fn spare_mut(&mut self) -> (r: &mut [u8])
        requires
            old(self).wf(),
        ensures
            r@ == old(self).spare(),
            final(self).wf(),
            final(self)@ == old(self)@,
            final(self).spare() == final(r)@,
    {
        let filled = self.filled;
        let (_, spare) = self.data.as_mut_slice().split_at_mut(filled);
        spare
    }

    /// Count the first `n` bytes of the room as received.
    pub fn advance(&mut self, n: usize)
        requires
            old(self).wf(),
            n <= old(self).spare().len(),
        ensures
            final(self).wf(),
            final(self)@ == old(self)@ + old(self).spare().take(n as int),
            final(self).spare() == old(self).spare().skip(n as int),
    {
        assert(self.filled + n <= self.data.len());
        self.filled = self.filled + n;
        assert(self@ =~= old(self)@ + old(self).spare().take(n as int));
        assert(self.spare() =~= old(self).spare().skip(n as int));
    }

    /// Make room for at least `additional` bytes behind the received ones.
    pub fn reserve(&mut self, additional: usize)
        requires
            old(self).wf(),
            old(self)@.len() + additional <= isize::MAX,
        ensures
            final(self).wf(),
            final(self)@ == old(self)@,
            final(self).room() == grown_room(
                old(self).room(),
                (old(self)@.len() + additional) as nat,
            ),
    {
        let wanted: usize = self.filled + additional;
        let room = self.data.len();
        if room < wanted {
            let doubled: u128 = 2 * (room as u128);
            let target: usize = if (wanted as u128) < doubled && doubled <= isize::MAX as u128 {
                doubled as usize
            } else {
                wanted
            };
            lengthen(&mut self.data, target);
            assert(self@ =~= old(self)@) by {
                assert(self.data@.take(room as int).take(self.filled as int) =~= self@);
            }
        }
    }

    /// Append `bytes` to the received ones, making room as needed.
    pub fn extend_from_slice(&mut self, bytes: &[u8])
        requires
            old(self).wf(),
            old(self)@.len() + bytes@.len() <= isize::MAX,
        ensures
            final(self).wf(),
            final(self)@ == old(self)@ + bytes@,
            final(self).room() == grown_room(
                old(self).room(),
                old(self)@.len() + bytes@.len(),
            ),
    {
        let n = bytes.len();
        self.reserve(n);
        let ghost start = self.filled as int;
        let ghost total = self.data@.len();
        let mut i: usize = 0;
        while i < n
            invariant
                n == bytes@.len(),
                i <= n,
                start == self.filled,
                total == self.data.len(),
                start + n <= total,
                self.data@.take(start) == old(self)@,
                forall|k: int| 0 <= k < i ==> self.data@[start + k] == bytes@[k],
            decreases n - i,
        {
            let at: usize = self.filled + i;
            self.data.set(at, bytes[i]);
            assert(self.data@.take(start) =~= old(self)@);
            i += 1;
        }
        assert(self.spare().take(n as int) =~= bytes@);
        self.advance(n);
    }
}

/// Recycled heap buffers for request bodies that did not arrive inline.
///
/// Without this a large upload costs a multi-hundred-kilobyte allocation and
/// free per request, which at tens of thousands of requests a second is enough
/// to dominate the copy it exists to hold.
pub struct BodyPool {
    free: ArrayQueue<Vec<u8>>,
    max_retained: usize,
}

/// What a [`BodyPool`] holds and was made for.
pub struct BodyPoolView {
    /// The waiting buffers, oldest first.
    pub free: Seq<Seq<u8>>,
    /// How many buffers may wait.
    pub slots: nat,
    /// Buffers larger than this are freed instead of kept, so one outsized
    /// upload cannot pin memory for the life of the process.
    pub max_retained: nat,
}

impl View for BodyPool {
    type V = BodyPoolView;

    closed spec fn view(&self) -> BodyPoolView {
        BodyPoolView {
            free: queued_bodies(self.free),
            slots: body_slots(self.free),
            max_retained: self.max_retained as nat,
        }
    }
}

impl BodyPoolView {
    /// No more buffers wait than there are places, and none of them is
    /// outsized.
    pub open spec fn wf(self) -> bool {
        &&& 0 < self.slots
        &&& self.free.len() <= self.slots
        &&& forall|i: int|
            0 <= i < self.free.len() ==> #[trigger] self.free[i].len() <= self.max_retained
    }

    /// The pool after a checkout.
    pub open spec fn taken(self) -> BodyPoolView {
        BodyPoolView {
            free: if self.free.len() > 0 {
                self.free.drop_first()
            } else {
                self.free
            },
            ..self
        }
    }

    /// The room of the buffer that the next checkout for `capacity` bytes
    /// hands out.
    pub open spec fn next_room(self, capacity: nat) -> nat {
        if self.free.len() > 0 && self.free[0].len() > capacity {
            self.free[0].len()
        } else {
            capacity
        }
    }

    /// The pool after a buffer of these bytes has come back: it waits, or it is
    /// gone if it is outsized or every place is taken.
    pub open spec fn returned(self, data: Seq<u8>) -> BodyPoolView {
        BodyPoolView {
            free: if data.len() <= self.max_retained && self.free.len() < self.slots {
                self.free.push(data)
            } else {
                self.free
            },
            ..self
        }
    }
}

impl BodyPool {
    /// A pool that keeps up to `slots` buffers, at least one, of at most
    /// `max_retained` bytes each.
    pub fn new(slots: usize, max_retained: usize) -> (r: Self)
        requires
            slots * 32 <= isize::MAX,
        ensures
            r@.wf(),
            r@.free == Seq::<Seq<u8>>::empty(),
            r@.slots == if slots == 0 {
                1
            } else {
                slots as nat
            },
            r@.max_retained == max_retained,
    {
        let places = if slots == 0 {
            1
        } else {
            slots
        };
        BodyPool { free: new_body_queue(places), max_retained }
    }

    /// Take an empty buffer with room for at least `capacity` bytes.
    pub fn take(&mut self, capacity: usize) -> (r: PooledVec)
        requires
            old(self)@.wf(),
            capacity <= isize::MAX,
        ensures
            final(self)@.wf(),
            final(self)@ == old(self)@.taken(),
            r.wf(),
            r@ == Seq::<u8>::empty(),
            r.room() == old(self)@.next_room(capacity as nat),
    {
        let ghost before = self@;
        let mut data = match pop_body(&mut self.free) {
            Some(data) => data,
            None => Vec::new(),
        };
        proof {
            assert(self@.free =~= before.taken().free);
            assert forall|i: int| 0 <= i < self@.free.len() implies #[trigger] self@.free[i].len()
                <= self@.max_retained by {
                if before.free.len() > 0 {
                    assert(before.free[i + 1].len() <= before.max_retained);
                }
            }
        }
        if data.len() < capacity {
            lengthen(&mut data, capacity);
        }
        let r = PooledVec { data, filled: 0 };
        assert(r@ =~= Seq::<u8>::empty());
        r
    }

    /// Put a buffer back. It waits for reuse if it is not outsized and a place
    /// is free; otherwise it is freed.
    pub fn give_back(&mut self, buffer: PooledVec)
        requires
            old(self)@.wf(),
            buffer.wf(),
        ensures
            final(self)@.wf(),
            final(self)@ == old(self)@.returned(buffer@ + buffer.spare()),
    {
        assert(buffer.data@ =~= buffer@ + buffer.spare());
        if buffer.data.len() <= self.max_retained {
            let _ = push_body(&mut self.free, buffer.data);
        }
    }

    /// How many buffers wait for reuse.
    pub fn free_len(&self) -> (r: usize)
        ensures
            r == self@.free.len(),
    {
        count_bodies(&self.free)
    }
}

/// A buffer that comes back to an empty pool is the next one handed out, with
/// its words as they were.
pub proof fn law_buffers_are_recycled(pool: BufferPoolView, words: Seq<u64>)
    requires
        pool.wf(),
        pool.free.len() == 0,
    ensures
        pool.returned(words).next() == words,
        pool.returned(words).taken() == pool,
{
    assert(pool.returned(words).taken().free =~= pool.free);
}

/// However many buffers come back, no more wait than the pool has places for.
pub proof fn law_surplus_buffers_are_freed(pool: BufferPoolView, words: Seq<u64>)
    requires
        pool.wf(),
        buffer_words(words),
    ensures
        pool.returned(words).wf(),
        pool.free.len() == pool.slots ==> pool.returned(words) == pool,
{
    let after = pool.returned(words);
    assert forall|i: int| 0 <= i < after.free.len() implies buffer_words(
        #[trigger] after.free[i],
    ) by {
        if i < pool.free.len() {
            assert(buffer_words(pool.free[i]));
        }
    }
}

/// An outsized body buffer is freed when it comes back, and so is one that finds
/// every place taken; what waits stays within both limits.
pub proof fn law_outsized_bodies_are_freed(pool: BodyPoolView, data: Seq<u8>)
    requires
        pool.wf(),
    ensures
        pool.returned(data).wf(),
        data.len() > pool.max_retained ==> pool.returned(data) == pool,
        pool.free.len() == pool.slots ==> pool.returned(data) == pool,
{
    let after = pool.returned(data);
    assert forall|i: int| 0 <= i < after.free.len() implies #[trigger] after.free[i].len()
        <= after.max_retained by {
        if i < pool.free.len() {
            assert(pool.free[i].len() <= pool.max_retained);
        }
    }
}

/// A checkout always has the room it was asked for, and a body buffer that came
/// back to an empty pool brings its own room along.
pub proof fn law_body_room_is_reused(pool: BodyPoolView, data: Seq<u8>, capacity: nat)
    requires
        pool.wf(),
    ensures
        pool.next_room(capacity) >= capacity,
        pool.free.len() == 0 && data.len() <= pool.max_retained ==> pool.returned(data).next_room(
            capacity,
        ) >= data.len() && pool.returned(data).taken() == pool,
{
    assert(pool.free.len() == 0 ==> pool.returned(data).taken().free =~= pool.free);
}

/// Once a buffer has been fitted to a body, the same body finds it large
/// enough: it is neither replaced again nor ever made smaller. (Beyond four
/// gigabytes the size that the kernel is told wraps around.)
pub proof fn law_fitting_settles(words: Seq<u64>, bytes: nat)
    requires
        buffer_words(words),
        words.len() * 8 < 0x1_0000_0000,
        bytes + 7 < 0x1_0000_0000,
    ensures
        told_capacity(grown(words, bytes)) >= bytes,
        told_capacity(grown(words, bytes)) >= told_capacity(words),
        grown(grown(words, bytes), bytes) == grown(words, bytes),
{
    assert(words_for(bytes) * 8 < 0x1_0000_0000);
    assert(words_for(bytes) * 8 >= bytes);
}

/// Clearing the header block clears the request id with it.
pub proof fn law_prepared_buffer_has_no_request(words: Seq<u64>)
    requires
        buffer_words(words),
    ensures
        prepared(words)[REQUEST_ID_WORD as int] == 0,
        buffer_words(prepared(words)),
        prepared(prepared(words)) == prepared(words),
{
}

/// A new buffer holds what it is asked for and the header block with a word more,
/// all zero, and is no larger than one of these asks for.
pub proof fn law_a_new_buffer_has_room(bytes: usize, buffer: RequestBuffer, i: int)
    requires
        allocatable(bytes as nat),
        call_ensures(RequestBuffer::new, (bytes,), buffer),
    ensures
        buffer@.len() * 8 >= bytes,
        buffer@.len() * 8 >= 864 + 8,
        buffer@.len() * 8 < bytes + 8 || buffer@.len() * 8 == 864 + 8,
        0 <= i < buffer@.len() ==> buffer@[i] == 0,
{
}

/// The kernel is told the size of the whole buffer, and the request id is where the
/// kernel wrote it.
pub proof fn law_the_kernel_is_told_the_size(buffer: RequestBuffer, capacity: u32, id: u64)
    requires
        call_ensures(RequestBuffer::capacity, (&buffer,), capacity),
        call_ensures(RequestBuffer::request_id, (&buffer,), id),
    ensures
        buffer@.len() * 8 < 0x1_0000_0000 ==> capacity == buffer@.len() * 8,
        id == buffer@[2],
{
}

/// A buffer that is large enough is left alone, and any other becomes one that is.
/// (Beyond four gigabytes the size that the kernel is told wraps around.)
pub proof fn law_buffers_grow_only_when_they_must(buffer: &mut RequestBuffer, bytes: usize, i: int)
    requires
        old(buffer)@.len() * 8 < 0x1_0000_0000,
        call_ensures(RequestBuffer::grow_to, (buffer, bytes), ()),
    ensures
        bytes <= old(buffer)@.len() * 8 ==> final(buffer)@ == old(buffer)@,
        bytes > old(buffer)@.len() * 8 ==> final(buffer)@.len() * 8 >= bytes,
        bytes > old(buffer)@.len() * 8 && 0 <= i < final(buffer)@.len() ==> final(buffer)@[i] == 0,
{
}

/// The same of a buffer out of a pool, which keeps the size that it may grow to.
pub proof fn law_pooled_buffers_grow_only_when_they_must(buffer: &mut PooledBuffer, bytes: usize)
    requires
        old(buffer)@.len() * 8 < 0x1_0000_0000,
        call_ensures(PooledBuffer::grow_to, (buffer, bytes), ()),
    ensures
        bytes <= old(buffer)@.len() * 8 ==> final(buffer)@ == old(buffer)@,
        bytes > old(buffer)@.len() * 8 ==> final(buffer)@.len() * 8 >= bytes,
        final(buffer).spec_max_bytes() == old(buffer).spec_max_bytes(),
{
}

/// Preparing a buffer clears all of the header block and nothing behind it.
pub proof fn law_preparing_clears_the_header_block(buffer: &mut RequestBuffer, i: int)
    requires
        old(buffer).wf(),
        call_ensures(RequestBuffer::prepare, (buffer,), ()),
    ensures
        final(buffer)@.len() == old(buffer)@.len(),
        0 <= i < 108 ==> final(buffer)@[i] == 0,
        108 <= i < old(buffer)@.len() ==> final(buffer)@[i] == old(buffer)@[i],
{
}

/// A length in decimal declares that number. Without a header nothing is declared,
/// and what is not UTF-8 or not a number declares more than any buffer holds.
pub proof fn law_what_a_header_declares(content_length: &[u8], n: nat, r: Option<u64>)
    requires
        n <= u64::MAX,
        call_ensures(declared_body_len, (content_length,), r),
    ensures
        content_length@.len() == 0 <==> r is None,
        content_length@ == utf8::encode_utf8(text::decimal(n)) ==> r == Some(n as u64),
        content_length@.len() > 0 && !utf8::valid_utf8(content_length@) ==> r == Some(u64::MAX),
        content_length@.len() > 0 && utf8::valid_utf8(content_length@) && text::parsed_number(
            utf8::decode_utf8(content_length@),
            u64::MAX as nat,
        ) is None ==> r == Some(u64::MAX),
{
    text::law_texts_survive_encoding(text::decimal(n));
    text::law_decimal_reads_back(n, u64::MAX as nat);
}

/// A body can arrive with its headers if and only if it and eight kilobytes fit into
/// a buffer of the largest size, and that is the room it needs. A request without a
/// body needs no room in particular.
pub proof fn law_which_bodies_fit_inline(
    buffer: PooledBuffer,
    content_length: &[u8],
    n: nat,
    r: Option<usize>,
)
    requires
        n <= u64::MAX,
        call_ensures(PooledBuffer::fit_body_inline, (&buffer, content_length), r),
    ensures
        content_length@.len() == 0 ==> r == Some(0usize),
        content_length@ == utf8::encode_utf8(text::decimal(n)) ==> {
            &&& r is Some <==> n + 8192 <= buffer.spec_max_bytes()
            &&& r matches Some(bytes) ==> bytes == n + 8192
        },
{
    text::law_texts_survive_encoding(text::decimal(n));
    text::law_decimal_reads_back(n, u64::MAX as nat);
}

/// A pool starts empty, with the places and the sizes it is asked for: one place at
/// least, and a largest size that is no less than the size of a fresh buffer.
pub proof fn law_a_pool_of_buffers_starts_empty(
    slots: usize,
    bytes: usize,
    max_bytes: usize,
    pool: BufferPool,
    free: usize,
)
    requires
        call_ensures(BufferPool::new, (slots, bytes, max_bytes), pool),
        call_ensures(BufferPool::free_len, (&pool,), free),
    ensures
        free == 0,
        pool@.slots >= 1 && pool@.slots >= slots,
        pool@.slots == 1 || pool@.slots == slots,
        pool@.bytes == bytes,
        pool@.max_bytes >= bytes && pool@.max_bytes >= max_bytes,
        pool@.max_bytes == bytes || pool@.max_bytes == max_bytes,
{
}

/// A buffer that is taken is the one that has waited longest, as it came back, and a
/// fresh one of the pool's size if none waits. It may grow as far as the pool says.
pub proof fn law_buffers_are_taken_oldest_first(
    pool: &mut BufferPool,
    buffer: PooledBuffer,
    left: usize,
)
    requires
        call_ensures(BufferPool::take, (pool,), buffer),
        call_ensures(BufferPool::free_len, (&*final(pool),), left),
    ensures
        ({
            let (before, after) = (old(pool)@, final(pool)@);
            &&& left == after.free.len()
            &&& before.free.len() > 0 ==> before.free == seq![buffer@] + after.free
            &&& before.free.len() == 0 ==> after.free.len() == 0 && buffer@.len() * 8
                >= before.bytes && forall|i: int| 0 <= i < buffer@.len() ==> buffer@[i] == 0
            &&& buffer.spec_max_bytes() == before.max_bytes
            &&& after.slots == before.slots && after.bytes == before.bytes && after.max_bytes
                == before.max_bytes
        }),
{
    if old(pool)@.free.len() > 0 {
        assert(old(pool)@.free =~= seq![buffer@] + final(pool)@.free);
    }
}

/// A buffer that comes back waits behind the others as it is, if a place is free,
/// and is gone otherwise.
pub proof fn law_buffers_wait_in_line(pool: &mut BufferPool, buffer: PooledBuffer)
    requires
        call_ensures(BufferPool::give_back, (pool, buffer), ()),
    ensures
        ({
            let (before, after) = (old(pool)@, final(pool)@);
            &&& before.free.len() < before.slots ==> after.free == before.free + seq![buffer@]
            &&& before.free.len() >= before.slots ==> after.free == before.free
            &&& after.slots == before.slots && after.bytes == before.bytes && after.max_bytes
                == before.max_bytes
        }),
{
    assert(old(pool)@.free.push(buffer@) =~= old(pool)@.free + seq![buffer@]);
}

/// A pool of body buffers starts empty, with the places it is asked for, but one at
/// least, and keeps buffers of the size it is asked to keep.
pub proof fn law_a_pool_of_bodies_starts_empty(
    slots: usize,
    max_retained: usize,
    pool: BodyPool,
    free: usize,
)
    requires
        call_ensures(BodyPool::new, (slots, max_retained), pool),
        call_ensures(BodyPool::free_len, (&pool,), free),
    ensures
        free == 0,
        pool@.slots >= 1 && pool@.slots >= slots,
        pool@.slots == 1 || pool@.slots == slots,
        pool@.max_retained == max_retained,
{
}

/// A body buffer that is taken is empty and has the room it is asked for. It is the
/// one that has waited longest, if any waits: with the room that it had, if that is
/// more, and otherwise with just what is asked for.
pub proof fn law_bodies_are_taken_oldest_first(
    pool: &mut BodyPool,
    capacity: usize,
    buffer: PooledVec,
    len: usize,
    empty: bool,
    room: usize,
    left: usize,
)
    requires
        call_ensures(BodyPool::take, (pool, capacity), buffer),
        call_ensures(PooledVec::len, (&buffer,), len),
        call_ensures(PooledVec::is_empty, (&buffer,), empty),
        call_ensures(PooledVec::capacity, (&buffer,), room),
        call_ensures(BodyPool::free_len, (&*final(pool),), left),
    ensures
        len == 0,
        empty,
        room >= capacity,
        ({
            let (before, after) = (old(pool)@, final(pool)@);
            &&& left == after.free.len()
            &&& before.free.len() == 0 ==> room == capacity && after.free.len() == 0
            &&& before.free.len() > 0 ==> {
                &&& before.free == seq![before.free[0]] + after.free
                &&& room >= before.free[0].len()
                &&& room == capacity || room == before.free[0].len()
            }
            &&& after.slots == before.slots && after.max_retained == before.max_retained
        }),
{
    if old(pool)@.free.len() > 0 {
        assert(old(pool)@.free =~= seq![old(pool)@.free[0]] + final(pool)@.free);
    }
}

/// A body buffer that comes back waits behind the others with all its room, if that
/// is no more than the pool keeps and a place is free, and is gone otherwise.
pub proof fn law_bodies_wait_in_line(pool: &mut BodyPool, buffer: PooledVec)
    requires
        call_ensures(BodyPool::give_back, (pool, buffer), ()),
    ensures
        ({
            let (before, after) = (old(pool)@, final(pool)@);
            let fits = buffer.room() <= before.max_retained && before.free.len() < before.slots;
            &&& fits ==> after.free.len() == before.free.len() + 1 && after.free.drop_last()
                == before.free && after.free.last().len() == buffer.room()
            &&& !fits ==> after.free == before.free
            &&& after.slots == before.slots && after.max_retained == before.max_retained
        }),
{
    let (before, after) = (old(pool)@, final(pool)@);
    if after.free.len() > before.free.len() {
        assert(after.free.drop_last() =~= before.free);
    }
}

/// Appending to a body buffer puts the bytes behind those received, and counting
/// bytes of its room as received moves just those over. Making room moves nothing,
/// and where there is too little it gives what is asked for or twice what there was,
/// whichever is more. The buffer never loses room.
pub proof fn law_body_buffers_keep_what_they_received(
    appended: &mut PooledVec,
    bytes: &[u8],
    advanced: &mut PooledVec,
    n: usize,
    reserved: &mut PooledVec,
    additional: usize,
)
    requires
        call_ensures(PooledVec::extend_from_slice, (appended, bytes), ()),
        n <= old(advanced).spare().len(),
        call_ensures(PooledVec::advance, (advanced, n), ()),
        call_ensures(PooledVec::reserve, (reserved, additional), ()),
    ensures
        final(appended)@ == old(appended)@ + bytes@,
        final(appended).room() >= old(appended).room(),
        final(advanced)@ == old(advanced)@ + old(advanced).spare().take(n as int),
        final(advanced)@ + final(advanced).spare() == old(advanced)@ + old(advanced).spare(),
        final(reserved)@ == old(reserved)@,
        final(reserved).room() >= old(reserved).room(),
        final(reserved).room() >= old(reserved)@.len() + additional,
        old(reserved)@.len() + additional <= old(reserved).room() ==> final(reserved).room()
            == old(reserved).room(),
        old(reserved).room() < old(reserved)@.len() + additional && 2 * old(reserved).room()
            <= isize::MAX ==> final(reserved).room() >= 2 * old(reserved).room(),
        final(reserved).room() == old(reserved).room() || final(reserved).room() == 2 * old(
            reserved,
        ).room() || final(reserved).room() == old(reserved)@.len() + additional,
{
    assert(old(advanced).spare().take(n as int) + old(advanced).spare().skip(n as int) =~= old(
        advanced,
    ).spare());
    assert(final(advanced)@ + final(advanced).spare() =~= old(advanced)@ + old(advanced).spare());
}

/// The room behind the received bytes is what a read writes into, and writing into
/// it changes nothing of what has been received.
pub proof fn law_reads_write_behind_what_was_received(
    buffer: &mut PooledVec,
    spare: &mut [u8],
    any: PooledVec,
    slice: &[u8],
)
    requires
        call_ensures(PooledVec::spare_mut, (buffer,), spare),
        call_ensures(PooledVec::as_slice, (&any,), slice),
    ensures
        old(spare)@ == old(buffer).spare(),
        final(buffer)@ == old(buffer)@,
        final(buffer).spare() == final(spare)@,
        slice@ == any@,
{
}

/// A buffer out of a pool is the memory that it stands for: what is written into it
/// is what it then holds.
pub proof fn law_buffers_are_what_is_written_into_them(
    pooled: PooledBuffer,
    inner: &RequestBuffer,
    outer: &mut PooledBuffer,
    buffer: &mut RequestBuffer,
    target: &mut RequestBuffer,
    words: &mut [u64],
)
    requires
        call_ensures(PooledBuffer::buffer, (&pooled,), inner),
        call_ensures(PooledBuffer::buffer_mut, (outer,), buffer),
        call_ensures(RequestBuffer::words_mut, (target,), words),
    ensures
        inner@ == pooled@,
        old(buffer)@ == old(outer)@,
        final(outer)@ == final(buffer)@,
        final(outer).spec_max_bytes() == old(outer).spec_max_bytes(),
        old(words)@ == old(target)@,
        final(target)@ == final(words)@,
{
}

} // verus!
