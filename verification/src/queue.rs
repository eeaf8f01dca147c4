//! The decisions of a request queue: how a request is received, what a body
//! read returns, and how many operations the queue is sized for.

use crate::buffer::{self, PooledBuffer, HEADER_SLACK, REQUEST_ID_WORD};
use crate::error::{Error, Result};
use crate::text;
use vstd::prelude::*;
use vstd::utf8;

verus! {

/// Win32 `ERROR_HANDLE_EOF`: the entity body has been fully consumed.
pub const ERROR_HANDLE_EOF: u32 = 38;

/// Win32 `ERROR_MORE_DATA`: the receive buffer was too small. The request
/// stays queued and can be re-received by id.
pub const ERROR_MORE_DATA: u32 = 234;

/// Whether the next receive should ask http.sys to copy the body in with the
/// headers.
///
/// Asking for it is a clear win when the body fits (one call instead of two or
/// more) and a clear loss when it does not, because the receive fails with
/// `ERROR_MORE_DATA` and has to be reissued. Each request slot therefore
/// carries the outcome of its last request forward, so a workload settles on
/// the right answer after at most one mistake.
#[derive(Debug, Clone, Copy, PartialEq, Eq, Structural)]
pub struct ReceiveMode {
    /// Ask for the body along with the headers.
    pub copy_body: bool,
    /// The size that the buffer should have by the next receive.
    pub wanted: usize,
}

impl ReceiveMode {
    /// A buffer of the wanted size can be allocated.
    pub open spec fn wf(self) -> bool {
        buffer::allocatable(self.wanted as nat)
    }
}

impl Default for ReceiveMode {
    fn default() -> (r: Self)
        ensures
            r == (ReceiveMode { copy_body: true, wanted: 0 }),
            r.wf(),
    {
        ReceiveMode { copy_body: true, wanted: 0 }
    }
}

/// One receive call to be made.
#[derive(Debug, Clone, Copy, PartialEq, Eq, Structural)]
pub struct ReceiveCall {
    /// Which request to receive; zero means whatever request is next.
    pub request_id: u64,
    /// Whether the entity body is to be copied in with the headers.
    pub copy_body: bool,
}

/// A receive in progress.
#[derive(Debug, Clone, Copy, PartialEq, Eq, Structural)]
pub struct Receive {
    /// The call that is outstanding.
    pub call: ReceiveCall,
    /// The size that the kernel last asked for, zero if it never did.
    pub needed: u32,
}

/// What follows a receive call.
pub enum ReceiveStep {
    /// Make the call of this receive.
    Again(Receive),
    /// The receive is over.
    Done(Result<()>),
}

/// Whether a call came back because the buffer was too small.
pub open spec fn too_small(result: Result<()>) -> bool {
    result == Err::<(), Error>(Error::Win32(ERROR_MORE_DATA))
}

impl Receive {
    /// The receive that `mode` starts with: the next request, whichever it is.
    pub open spec fn first(mode: ReceiveMode) -> Receive {
        Receive { call: ReceiveCall { request_id: 0, copy_body: mode.copy_body }, needed: 0 }
    }

    /// What follows when the outstanding call came back with `result`, leaving
    /// `words` in the buffer.
    pub open spec fn next(self, result: Result<()>, words: Seq<u64>) -> ReceiveStep {
        if self.call.copy_body && too_small(result) {
            ReceiveStep::Again(
                Receive {
                    call: ReceiveCall {
                        request_id: words[REQUEST_ID_WORD as int],
                        copy_body: false,
                    },
                    needed: self.needed,
                },
            )
        } else if too_small(result) {
            ReceiveStep::Done(Err(Error::HeadersTooLarge { needed: self.needed }))
        } else {
            ReceiveStep::Done(result)
        }
    }

    /// The mode to carry forward after that.
    pub open spec fn next_mode(
        self,
        mode: ReceiveMode,
        result: Result<()>,
        content_length: Seq<u8>,
        max_bytes: nat,
    ) -> ReceiveMode {
        if self.call.copy_body && too_small(result) {
            ReceiveMode { copy_body: false, ..mode }
        } else if !self.call.copy_body && result is Ok {
            match buffer::inline_room(buffer::declared_len(content_length), max_bytes) {
                Some(bytes) => ReceiveMode {
                    copy_body: true,
                    wanted: if bytes > mode.wanted {
                        bytes as usize
                    } else {
                        mode.wanted
                    },
                },
                None => ReceiveMode { copy_body: false, ..mode },
            }
        } else {
            mode
        }
    }

    /// Start receiving, into a buffer whose last request is over. It is given the
    /// size that the requests before have asked for.
    pub fn begin(mode: ReceiveMode, buffer: &mut PooledBuffer) -> (r: Self)
        requires
            mode.wf(),
            old(buffer).wf(),
        ensures
            r == Receive::first(mode),
            final(buffer).wf(),
            final(buffer).spec_max_bytes() == old(buffer).spec_max_bytes(),
            final(buffer)@ == buffer::grown(old(buffer)@, mode.wanted as nat),
    {
        buffer.grow_to(mode.wanted);
        Receive { call: ReceiveCall { request_id: 0, copy_body: mode.copy_body }, needed: 0 }
    }

    /// Note what the call returned on the spot: only a call that fails at once
    /// for want of room has reported the size it needs.
    pub fn submitted(&mut self, ec: u32, reported: u32)
        ensures
            final(self).call == old(self).call,
            final(self).needed == if ec == ERROR_MORE_DATA {
                reported
            } else {
                old(self).needed
            },
    {
        if ec == ERROR_MORE_DATA {
            self.needed = reported;
        }
    }

    /// Decide what follows once the call has come back with `result`. The request
    /// stays in `buffer` as it was received.
    ///
    /// When the body was asked for and did not fit, the same request is
    /// received again, headers only, and `mode` is updated so the next request
    /// on this slot does not repeat the wasted call. When a headers-only call
    /// succeeded, `mode` notes the size that the buffer needs for what this
    /// connection is actually sending, and goes back to single-call receives if
    /// that can be had. `content_length` is the raw text of that header of the
    /// received request, empty if it has none.
    pub fn returned(
        self,
        result: Result<()>,
        content_length: &[u8],
        buffer: &PooledBuffer,
        mode: &mut ReceiveMode,
    ) -> (r: ReceiveStep)
        requires
            old(mode).wf(),
            buffer.wf(),
        ensures
            r == self.next(result, buffer@),
            final(mode).wf(),
            *final(mode) == self.next_mode(
                *old(mode),
                result,
                content_length@,
                buffer.spec_max_bytes(),
            ),
    {
        let no_room = match &result {
            Err(Error::Win32(code)) => *code == ERROR_MORE_DATA,
            _ => false,
        };
        if no_room && self.call.copy_body {
            mode.copy_body = false;
            return ReceiveStep::Again(
                Receive {
                    call: ReceiveCall {
                        request_id: buffer.buffer().request_id(),
                        copy_body: false,
                    },
                    needed: self.needed,
                },
            );
        }
        if no_room {
            // Not even the headers fit; the caller must reject the request.
            return ReceiveStep::Done(Err(Error::HeadersTooLarge { needed: self.needed }));
        }
        if result.is_ok() && !self.call.copy_body {
            match buffer.fit_body_inline(content_length) {
                Some(bytes) => {
                    mode.copy_body = true;
                    if bytes > mode.wanted {
                        mode.wanted = bytes;
                    }
                },
                None => {
                    mode.copy_body = false;
                },
            }
        }
        ReceiveStep::Done(result)
    }
}

/// The size of the next body read into a buffer of `room` bytes, `None` if
/// there is no room and so nothing to ask for. The kernel takes a 32-bit size.
pub fn body_read_size(room: usize) -> (r: Option<u32>)
    ensures
        r == if room == 0 {
            None
        } else {
            Some((room as int % 0x1_0000_0000) as u32)
        },
{
    if room == 0 {
        None
    } else {
        Some((room as u64 % 0x1_0000_0000u64) as u32)
    }
}

/// What a body read returned: the bytes read, or `None` at end of body.
pub fn body_read_result(result: Result<u32>) -> (r: Result<Option<usize>>)
    ensures
        r == match result {
            Ok(read) => Ok(Some(read as usize)),
            Err(Error::Win32(code)) if code == ERROR_HANDLE_EOF => Ok(None),
            Err(e) => Err(e),
        },
{
    match result {
        Ok(read) => Ok(Some(read as usize)),
        Err(Error::Win32(code)) if code == ERROR_HANDLE_EOF => Ok(None),
        Err(e) => Err(e),
    }
}

/// How many completion states a queue keeps for `concurrency` requests in
/// flight. Two per slot: a receive and a send can be live at the same time
/// across different slots.
pub fn op_slots_for(concurrency: usize) -> (r: usize)
    requires
        concurrency * 2 <= usize::MAX,
    ensures
        r == concurrency * 2,
{
    concurrency * 2
}

/// A receive makes at most two calls. A second one is made only where the first
/// asked for the body and found no room, and it asks for the same request
/// again, headers only.
pub proof fn law_at_most_two_calls(
    mode: ReceiveMode,
    needed: u32,
    result: Result<()>,
    words: Seq<u64>,
    second_result: Result<()>,
    second_words: Seq<u64>,
)
    ensures
        ({
            let first = Receive { needed, ..Receive::first(mode) };
            match first.next(result, words) {
                ReceiveStep::Done(_) => !(mode.copy_body && too_small(result)),
                ReceiveStep::Again(second) => {
                    &&& mode.copy_body && too_small(result)
                    &&& second.call.request_id == words[REQUEST_ID_WORD as int]
                    &&& !second.call.copy_body
                    &&& second.next(second_result, second_words) is Done
                },
            }
        }),
{
}

/// A request is rejected for its headers if and only if a headers-only call
/// found no room, and the rejection names the size the kernel asked for.
pub proof fn law_headers_too_large(receive: Receive, result: Result<()>, words: Seq<u64>, n: u32)
    requires
        !(result matches Err(Error::HeadersTooLarge { needed })),
    ensures
        receive.next(result, words) == ReceiveStep::Done(Err(Error::HeadersTooLarge { needed: n }))
            <==> !receive.call.copy_body && too_small(result) && receive.needed == n,
{
}

/// One wasted call settles a slot. After a body that did not fit has been
/// received headers-only, the slot asks for bodies again exactly if one of that
/// length can share the buffer, and whatever buffer the slot then starts its next
/// receive with is given the room for it. The room it asks for never shrinks.
pub proof fn law_one_mistake_settles_a_slot(
    retry: Receive,
    mode: ReceiveMode,
    content_length: Seq<u8>,
    max_bytes: nat,
    next_words: Seq<u64>,
    ok: Result<()>,
)
    requires
        !retry.call.copy_body,
        ok is Ok,
        mode.wanted + 7 < 0x1_0000_0000,
        buffer::buffer_words(next_words),
        next_words.len() * 8 < 0x1_0000_0000,
        max_bytes + 7 < 0x1_0000_0000,
    ensures
        ({
            let declared = buffer::declared_len(content_length);
            let needed = buffer::inline_room(declared, max_bytes);
            let after = retry.next_mode(mode, ok, content_length, max_bytes);
            let room = buffer::told_capacity(buffer::grown(next_words, after.wanted as nat));
            &&& after.copy_body <==> needed is Some
            &&& after.copy_body && declared is Some ==> room >= declared->Some_0 + HEADER_SLACK
            &&& after.wanted >= mode.wanted
            &&& room >= buffer::told_capacity(next_words)
        }),
{
    let after = retry.next_mode(mode, ok, content_length, max_bytes);
    buffer::law_fitting_settles(next_words, after.wanted as nat);
}

/// A call that did not come back for want of room ends the receive with exactly
/// what it returned, whether or not the body was asked for. A request that has
/// arrived is thus never lost, and no error turns into another. The mode is left
/// alone, unless the headers of a request have arrived without its body.
pub proof fn law_the_result_of_a_call_ends_the_receive(
    receive: Receive,
    result: Result<()>,
    content_length: &[u8],
    buffer: &PooledBuffer,
    mode: &mut ReceiveMode,
    step: ReceiveStep,
)
    requires
        call_ensures(Receive::returned, (receive, result, content_length, buffer, mode), step),
        result != Err::<(), Error>(Error::Win32(234)),
    ensures
        step == ReceiveStep::Done(result),
        result is Err || receive.call.copy_body ==> *final(mode) == *old(mode),
{
}

/// A call that came back for want of room is made again if the body was asked
/// for: for the request that is in the buffer, and without its body. If the
/// headers alone found no room, the request is given up, and the error tells the
/// size that the kernel asked for.
pub proof fn law_want_of_room_is_met_once(
    receive: Receive,
    content_length: &[u8],
    buffer: &PooledBuffer,
    mode: &mut ReceiveMode,
    step: ReceiveStep,
)
    requires
        call_ensures(
            Receive::returned,
            (receive, Err(Error::Win32(234)), content_length, buffer, mode),
            step,
        ),
    ensures
        final(mode).wanted == old(mode).wanted,
        match step {
            ReceiveStep::Again(again) => {
                &&& receive.call.copy_body
                &&& !again.call.copy_body
                &&& again.call.request_id == buffer@[2]
                &&& again.needed == receive.needed
                &&& !final(mode).copy_body
            },
            ReceiveStep::Done(outcome) => {
                &&& !receive.call.copy_body
                &&& outcome == Err::<(), Error>(Error::HeadersTooLarge { needed: receive.needed })
                &&& final(mode).copy_body == old(mode).copy_body
            },
        },
{
}

/// Once the headers of a request have arrived alone, the next body is asked for
/// along with its headers exactly if one of the declared length and eight kilobytes
/// of headers fit into a buffer of the largest size. The size asked for from then
/// on is the larger of that and what it was. A request that declares no body asks
/// for no other size.
pub proof fn law_a_slot_learns_from_what_was_declared(
    receive: Receive,
    result: Result<()>,
    content_length: &[u8],
    buffer: &PooledBuffer,
    mode: &mut ReceiveMode,
    step: ReceiveStep,
    n: nat,
)
    requires
        call_ensures(Receive::returned, (receive, result, content_length, buffer, mode), step),
        result is Ok,
        !receive.call.copy_body,
        n <= u64::MAX,
        buffer.wf(),
    ensures
        content_length@.len() == 0 ==> final(mode).copy_body && final(mode).wanted == old(
            mode,
        ).wanted,
        content_length@ == utf8::encode_utf8(text::decimal(n)) ==> {
            &&& final(mode).copy_body <==> n + 8192 <= buffer.spec_max_bytes()
            &&& final(mode).copy_body && n + 8192 > old(mode).wanted ==> final(mode).wanted == n
                + 8192
            &&& !final(mode).copy_body || n + 8192 <= old(mode).wanted ==> final(mode).wanted
                == old(mode).wanted
        },
        content_length@.len() > 0 && (!utf8::valid_utf8(content_length@) || text::parsed_number(
            utf8::decode_utf8(content_length@),
            u64::MAX as nat,
        ) is None) ==> !final(mode).copy_body && final(mode).wanted == old(mode).wanted,
{
    text::law_texts_survive_encoding(text::decimal(n));
    text::law_decimal_reads_back(n, u64::MAX as nat);
}

/// A receive starts with whatever request is next, asks for the body as the mode
/// says, and has been told no size yet. Its buffer is the one it was given if that
/// is as large as the mode wants, and otherwise one that is. (Beyond four
/// gigabytes the size that the kernel is told wraps around.)
pub proof fn law_a_receive_starts_as_the_mode_says(
    mode: ReceiveMode,
    buffer: &mut PooledBuffer,
    receive: Receive,
)
    requires
        call_ensures(Receive::begin, (mode, buffer), receive),
        old(buffer)@.len() * 8 < 0x1_0000_0000,
        mode.wanted + 7 < 0x1_0000_0000,
    ensures
        receive.call.request_id == 0,
        receive.call.copy_body == mode.copy_body,
        receive.needed == 0,
        final(buffer)@.len() * 8 >= mode.wanted,
        old(buffer)@.len() * 8 >= mode.wanted ==> final(buffer)@ == old(buffer)@,
        final(buffer).spec_max_bytes() == old(buffer).spec_max_bytes(),
{
}

/// The size that a call reports counts if and only if it found no room; what is
/// asked for stays the same.
pub proof fn law_only_want_of_room_reports_a_size(receive: &mut Receive, ec: u32, reported: u32)
    requires
        call_ensures(Receive::submitted, (receive, ec, reported), ()),
    ensures
        final(receive).call == old(receive).call,
        ec == 234 ==> final(receive).needed == reported,
        ec != 234 ==> final(receive).needed == old(receive).needed,
{
}

/// A slot starts out asking for bodies, with a buffer of any size.
pub proof fn law_slots_start_with_bodies(mode: ReceiveMode)
    requires
        call_ensures(<ReceiveMode as Default>::default, (), mode),
    ensures
        mode.copy_body,
        mode.wanted == 0,
{
}

/// A read that succeeded gives as many bytes as the kernel says, the end of the
/// body is no error, and every error but that one is handed on.
pub proof fn law_body_reads(result: Result<u32>, r: Result<Option<usize>>)
    requires
        call_ensures(body_read_result, (result,), r),
    ensures
        result matches Ok(n) ==> (r matches Ok(Some(count)) && count == n),
        result matches Err(e) ==> if e == Error::Win32(38) {
            r matches Ok(None)
        } else {
            r matches Err(other) && other == e
        },
{
}

/// Wherever there is room, a read asks for all of it, up to four gigabytes, and
/// nowhere else is anything asked for.
pub proof fn law_reads_ask_for_the_room_there_is(room: usize, r: Option<u32>)
    requires
        call_ensures(body_read_size, (room,), r),
        room < 0x1_0000_0000,
    ensures
        r is Some <==> room > 0,
        r matches Some(size) ==> size == room,
{
}

/// A queue has a completion state for a receive and for a send in each slot.
pub proof fn law_two_operations_for_each_slot(concurrency: usize, r: usize)
    requires
        call_ensures(op_slots_for, (concurrency,), r),
    ensures
        r == concurrency + concurrency,
{
}

} // verus!
