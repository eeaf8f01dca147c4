//! High-level HTTP server: what a server is configured with, which handler a
//! request goes to, and what a request slot does next.

use crate::buffer::{PooledBuffer, REQUEST_ID_WORD};
use crate::error::{Error, Result};
use crate::init::{self, UrlGroup};
use crate::queue::{self, Receive, ReceiveMode, ReceiveStep};
use crate::response::{Response, ResponseView};
use crate::status;
use std::borrow::Cow;
use std::collections::HashMap;
use vstd::prelude::*;

verus! {

broadcast use vstd::std_specs::hash::group_hash_axioms;

/// Win32 `ERROR_INVALID_HANDLE`.
pub const ERROR_INVALID_HANDLE: u32 = 6;

/// Win32 `ERROR_NO_MORE_FILES`.
pub const ERROR_NO_MORE_FILES: u32 = 18;

/// Win32 `ERROR_OPERATION_ABORTED`.
pub const ERROR_OPERATION_ABORTED: u32 = 995;

/// The most body buffers that are kept for reuse, whatever the slot count.
pub const MAX_BODY_SLOTS: usize = 64;

/// Tuning knobs for a server.
#[derive(Debug, Clone, Copy, PartialEq, Eq, Structural)]
pub struct ServerConfig {
    /// Number of request slots. Each slot keeps one receive posted against the
    /// queue and runs one handler to completion, so this is both the receive
    /// depth and the handler concurrency limit.
    ///
    /// Defaults to 32 for each core.
    pub concurrency: usize,
    /// Threads draining the completion port. Completions are cheap (they only
    /// wake a task), so a small number saturates easily.
    ///
    /// Defaults to one for every two cores, at least 2.
    pub io_threads: usize,
    /// Bytes per receive buffer. Anything that fits, headers plus body, arrives
    /// in a single call.
    ///
    /// Defaults to 16 KiB.
    pub request_buffer_bytes: usize,
    /// Ceiling that a receive buffer may grow to when a request slot keeps
    /// seeing bodies too large for [`ServerConfig::request_buffer_bytes`].
    /// Raising it trades memory for fewer calls on upload-heavy workloads.
    ///
    /// Defaults to 128 KiB.
    pub max_request_buffer_bytes: usize,
    /// Requests http.sys will queue before rejecting connections with 503.
    ///
    /// Defaults to 3000.
    pub queue_length: u32,
    /// Largest body buffer kept for reuse once its request is done. Bodies
    /// above this size are freed immediately rather than held per slot.
    ///
    /// Defaults to 1 MiB.
    pub max_pooled_body_bytes: usize,
    /// How long a shutdown waits for in-flight handlers to finish, in
    /// nanoseconds.
    ///
    /// Defaults to 30 seconds.
    pub shutdown_timeout_ns: u128,
}

impl ServerConfig {
    /// The defaults on a machine of so many cores.
    pub open spec fn spec_for_cores(cores: usize) -> ServerConfig {
        ServerConfig {
            concurrency: (cores * 32) as usize,
            io_threads: if cores / 2 < 2 {
                2
            } else {
                cores / 2
            },
            request_buffer_bytes: 16_384,
            max_request_buffer_bytes: 131_072,
            queue_length: 3000,
            max_pooled_body_bytes: 1_048_576,
            shutdown_timeout_ns: 30_000_000_000,
        }
    }

    /// The defaults on a machine of so many cores; where the number of cores
    /// cannot be found out, say 2.
    pub fn for_cores(cores: usize) -> (r: Self)
        requires
            cores * 32 <= usize::MAX,
        ensures
            r == ServerConfig::spec_for_cores(cores),
    {
        ServerConfig {
            concurrency: cores * 32,
            io_threads: if cores / 2 < 2 {
                2
            } else {
                cores / 2
            },
            request_buffer_bytes: 16_384,
            max_request_buffer_bytes: 131_072,
            queue_length: 3000,
            max_pooled_body_bytes: 1_048_576,
            shutdown_timeout_ns: 30_000_000_000,
        }
    }

    /// How many body buffers are kept for reuse. This is capped independently
    /// of the slot count: retaining one megabyte-scale buffer per slot on a
    /// many-core box would be gigabytes of idle memory for a burst that has
    /// long since passed.
    pub fn body_slots(&self) -> (r: usize)
        ensures
            r == if self.concurrency <= MAX_BODY_SLOTS {
                self.concurrency
            } else {
                MAX_BODY_SLOTS
            },
    {
        if self.concurrency <= MAX_BODY_SLOTS {
            self.concurrency
        } else {
            MAX_BODY_SLOTS
        }
    }
}

/// Handlers by the context that http.sys echoes back for their prefix.
pub struct Routes<H> {
    handlers: HashMap<u64, H>,
}

impl<H> View for Routes<H> {
    type V = Map<u64, H>;

    closed spec fn view(&self) -> Map<u64, H> {
        self.handlers@
    }
}

impl<H> Routes<H> {
    fn new() -> (r: Self)
        ensures
            r@ == Map::<u64, H>::empty(),
    {
        Routes { handlers: HashMap::new() }
    }

    fn insert(&mut self, context: u64, handler: H)
        ensures
            final(self)@ == old(self)@.insert(context, handler),
    {
        self.handlers.insert(context, handler);
    }

    /// The handler for a request, by the context of the prefix it matched.
    /// `None` only if a URL was removed from the group while a request for it
    /// was in flight; see [`unrouted`].
    pub fn get(&self, context: u64) -> (r: Option<&H>)
        ensures
            r == if self@.contains_key(context) {
                Some(&self@[context])
            } else {
                None
            },
    {
        self.handlers.get(&context)
    }
}

/// The reply to a request that no handler is registered for.
pub fn unrouted() -> (r: Response)
    ensures
        r@ == ResponseView::bare(status::NOT_FOUND),
{
    Response::new(status::NOT_FOUND)
}

/// Builder for a server: holds the routes while they are registered.
pub struct ServerBuilder<H> {
    routes: Routes<H>,
    next_id: u64,
    config: ServerConfig,
}

/// What a [`ServerBuilder`] holds.
#[verifier::ext_equal]
pub struct BuilderView<H> {
    pub routes: Map<u64, H>,
    /// The context that the next prefix gets.
    pub next_id: u64,
    pub config: ServerConfig,
}

impl<H> View for ServerBuilder<H> {
    type V = BuilderView<H>;

    closed spec fn view(&self) -> BuilderView<H> {
        BuilderView { routes: self.routes@, next_id: self.next_id, config: self.config }
    }
}

impl<H> BuilderView<H> {
    /// Contexts are given out in order, so every route has an earlier one than
    /// the next.
    pub open spec fn wf(self) -> bool {
        &&& self.next_id >= 1
        &&& forall|id: u64| #[trigger]
            self.routes.contains_key(id) ==> 1 <= id < self.next_id
    }

    /// The builder after a prefix was offered for `handler`. The context is used
    /// up whether or not the kernel took the prefix.
    pub open spec fn routed(self, handler: H, taken: bool) -> BuilderView<H> {
        BuilderView {
            routes: if taken {
                self.routes.insert(self.next_id, handler)
            } else {
                self.routes
            },
            next_id: (self.next_id + 1) as u64,
            config: self.config,
        }
    }
}

impl<H> ServerBuilder<H> {
    /// An empty server.
    pub fn with_config(config: ServerConfig) -> (r: Self)
        ensures
            r@ == (BuilderView { routes: Map::<u64, H>::empty(), next_id: 1, config }),
            r@.wf(),
    {
        ServerBuilder { routes: Routes::new(), next_id: 1, config }
    }

    /// Register a handler for a URL prefix such as `http://+:8080/api/`, in
    /// `group` and through `register`, which is given the group's id, the prefix
    /// as http.sys wants it and the context that stands for it, and returns a
    /// status code.
    ///
    /// Returns the kernel error if the prefix cannot be reserved, most often
    /// `ERROR_ACCESS_DENIED` (5) when no URL ACL exists for the current user.
    pub fn route<'a, F: FnOnce(u64, Cow<'a, str>, u64) -> u32>(
        &mut self,
        group: &UrlGroup,
        url: &'a str,
        handler: H,
        register: F,
    ) -> (r: Result<()>)
        requires
            old(self)@.wf(),
            old(self)@.next_id < u64::MAX,
            forall|prefix: Cow<'a, str>|
                prefix@ == init::normalized(url@) ==> call_requires(
                    register,
                    (group.id, prefix, old(self)@.next_id),
                ),
        ensures
            final(self)@.wf(),
            final(self)@ == old(self)@.routed(handler, r is Ok),
            exists|prefix: Cow<'a, str>, ec: u32|
                {
                    &&& prefix@ == init::normalized(url@)
                    &&& #[trigger] call_ensures(
                        register,
                        (group.id, prefix, old(self)@.next_id),
                        ec,
                    )
                    &&& match r {
                        Ok(_) => ec == 0,
                        Err(e) => ec != 0 && e == Error::Win32(ec),
                    }
                },
    {
        let id = self.next_id;
        self.next_id = id + 1;
        let added = group.add_url(url, id, register);
        if added.is_ok() {
            self.routes.insert(id, handler);
        }
        assert(self@ == old(self)@.routed(handler, added is Ok));
        proof {
            law_routes_do_not_collide(old(self)@, handler, added is Ok, 0);
        }
        added
    }

    /// What the builder was configured with.
    pub fn config(&self) -> (r: ServerConfig)
        ensures
            r == self@.config,
    {
        self.config
    }

    /// The routes, once they are all registered.
    pub fn into_routes(self) -> (r: Routes<H>)
        ensures
            r@ == self@.routes,
    {
        self.routes
    }
}

/// Whether an error means the queue is gone.
pub open spec fn terminal(e: Error) -> bool {
    ||| e == Error::QueueClosed
    ||| e == Error::Win32(ERROR_OPERATION_ABORTED)
    ||| e == Error::Win32(ERROR_INVALID_HANDLE)
    ||| e == Error::Win32(ERROR_NO_MORE_FILES)
}

/// Errors that mean the queue is gone and the slot should stop looping.
pub fn is_terminal(e: &Error) -> (r: bool)
    ensures
        r == terminal(*e),
{
    match e {
        Error::QueueClosed => true,
        Error::Win32(code) => *code == ERROR_OPERATION_ABORTED || *code == ERROR_INVALID_HANDLE
            || *code == ERROR_NO_MORE_FILES,
        Error::HeadersTooLarge { .. } => false,
    }
}

/// What a request slot does after a receive.
pub enum SlotStep {
    /// Run the handler and reply to the request.
    Handle,
    /// Reply to the request with this id without running a handler.
    Reply(u64, Response),
    /// Receive the next request.
    Next,
    /// Leave: there will be no more requests.
    Stop,
}

/// What a [`SlotStep`] says.
pub enum SlotView {
    Handle,
    Reply(u64, ResponseView),
    Next,
    Stop,
}

impl View for SlotStep {
    type V = SlotView;

    open spec fn view(&self) -> SlotView {
        match *self {
            SlotStep::Handle => SlotView::Handle,
            SlotStep::Reply(id, response) => SlotView::Reply(id, response@),
            SlotStep::Next => SlotView::Next,
            SlotStep::Stop => SlotView::Stop,
        }
    }
}

/// What a request slot does after a receive: a request that arrived is handled,
/// one whose headers are too large is refused, and the slot goes on unless the
/// queue is gone.
pub open spec fn next_step(result: Result<()>, request_id: u64) -> SlotView {
    match result {
        Ok(_) => SlotView::Handle,
        Err(Error::HeadersTooLarge { needed }) => if request_id == 0 {
            SlotView::Next
        } else {
            SlotView::Reply(request_id, ResponseView::bare(status::HEADERS_TOO_LARGE))
        },
        Err(e) => if terminal(e) {
            SlotView::Stop
        } else {
            SlotView::Next
        },
    }
}

/// What a request slot does after a receive has come back with `result` into a
/// buffer that holds the request id `request_id`, zero if none has arrived.
pub fn slot_step(result: &Result<()>, request_id: u64) -> (r: SlotStep)
    ensures
        r@ == next_step(*result, request_id),
{
    match result {
        Ok(_) => SlotStep::Handle,
        Err(Error::HeadersTooLarge { needed }) => {
            if request_id != 0 {
                SlotStep::Reply(request_id, Response::new(status::HEADERS_TOO_LARGE))
            } else {
                SlotStep::Next
            }
        },
        Err(e) => {
            if is_terminal(e) {
                SlotStep::Stop
            } else {
                SlotStep::Next
            }
        },
    }
}

/// The default configuration is self-consistent on every machine: there is
/// always a slot and a completion thread, and a receive buffer may grow and
/// still be smaller than a retained body.
pub proof fn law_default_config_is_self_consistent(cores: usize)
    requires
        cores >= 1,
        cores * 32 <= usize::MAX,
    ensures
        ({
            let config = ServerConfig::spec_for_cores(cores);
            &&& config.concurrency >= 32
            &&& config.io_threads >= 2
            &&& config.request_buffer_bytes >= 4096
            &&& config.max_request_buffer_bytes >= config.request_buffer_bytes
            &&& config.queue_length > 0
            &&& config.max_pooled_body_bytes >= config.request_buffer_bytes
        }),
{
}

/// A request whose headers do not fit is answered with 431 under its own id,
/// and the slot keeps going. `receive` is the headers-only call that found no
/// room, and `words` is the buffer it left.
pub proof fn law_oversized_headers_are_refused(
    receive: Receive,
    result: Result<()>,
    words: Seq<u64>,
)
    requires
        !receive.call.copy_body,
        queue::too_small(result),
        words[REQUEST_ID_WORD as int] != 0,
    ensures
        receive.next(result, words) matches ReceiveStep::Done(outcome) && next_step(
            outcome,
            words[REQUEST_ID_WORD as int],
        ) == SlotView::Reply(
            words[REQUEST_ID_WORD as int],
            ResponseView::bare(431),
        ),
{
}

/// A slot leaves only when the queue is gone, and then it does.
pub proof fn law_only_a_lost_queue_stops_a_slot(result: Result<()>, request_id: u64)
    ensures
        next_step(result, request_id) is Stop <==> (result matches Err(e) && terminal(e)),
{
}

/// Registering a prefix leaves every earlier route as it was, whatever the
/// kernel answers, and a prefix that was taken gets a context that no earlier
/// route has.
pub proof fn law_routes_do_not_collide<H>(builder: BuilderView<H>, handler: H, taken: bool, id: u64)
    requires
        builder.wf(),
        builder.next_id < u64::MAX,
    ensures
        builder.routed(handler, taken).wf(),
        !builder.routes.contains_key(builder.next_id),
        builder.routes.contains_key(id) ==> builder.routed(handler, taken).routes.contains_key(id)
            && builder.routed(handler, taken).routes[id] == builder.routes[id],
        builder.routed(handler, true).routes[builder.next_id] == handler,
        builder.routed(handler, false).routes == builder.routes,
{
}

/// What a slot does follows from the result alone, but for the id that a refusal
/// goes to. A request that arrived is handled. One whose headers do not fit is
/// answered with an empty 431 under its own id, if it has one. A closed queue and
/// the codes 6, 18 and 995 make the slot leave, and after every other error it
/// receives the next request.
pub proof fn law_what_a_slot_does(result: Result<()>, request_id: u64, step: SlotStep)
    requires
        call_ensures(slot_step, (&result, request_id), step),
    ensures
        step is Handle <==> result is Ok,
        step is Reply <==> request_id != 0 && (result matches Err(Error::HeadersTooLarge {
            needed,
        })),
        step matches SlotStep::Reply(id, response) ==> {
            &&& id == request_id
            &&& response@.status == 431
            &&& response@.body.len() == 0
            &&& response@.headers.len() == 0
            &&& response@.content_type is None
            &&& response@.cache_seconds is None
        },
        step is Stop <==> (result matches Err(e) && (e == Error::QueueClosed || e == Error::Win32(6)
            || e == Error::Win32(18) || e == Error::Win32(995))),
{
}

/// The errors that mean the queue is gone are a closed queue and three codes.
pub proof fn law_which_errors_are_terminal(e: Error, r: bool)
    requires
        call_ensures(is_terminal, (&e,), r),
    ensures
        e is QueueClosed ==> r,
        e is HeadersTooLarge ==> !r,
        e matches Error::Win32(code) ==> (r <==> code == 6 || code == 18 || code == 995),
{
}

/// From the kernel's answer to the slot: once a receive is over, the handler runs
/// if and only if the last call succeeded, so that a request that has arrived is
/// handled and nothing else is.
pub proof fn law_an_arrived_request_is_handled(
    receive: Receive,
    result: Result<()>,
    content_length: &[u8],
    buffer: &PooledBuffer,
    mode: &mut ReceiveMode,
    outcome: Result<()>,
    request_id: u64,
    step: SlotStep,
)
    requires
        call_ensures(
            Receive::returned,
            (receive, result, content_length, buffer, mode),
            ReceiveStep::Done(outcome),
        ),
        call_ensures(slot_step, (&outcome, request_id), step),
    ensures
        result is Ok <==> step is Handle,
{
}

/// The defaults follow the machine where they should and are fixed otherwise: 32
/// slots a core, a completion thread for every two cores but two at least, and the
/// sizes, the queue and the half minute that the fields document.
pub proof fn law_the_defaults(cores: usize, config: ServerConfig)
    requires
        cores * 32 <= usize::MAX,
        call_ensures(ServerConfig::for_cores, (cores,), config),
    ensures
        config.concurrency == 32 * cores,
        config.io_threads >= 2,
        config.io_threads == 2 || config.io_threads == cores / 2,
        config.io_threads >= cores / 2,
        config.request_buffer_bytes == 16 * 1024,
        config.max_request_buffer_bytes == 128 * 1024,
        config.queue_length == 3000,
        config.max_pooled_body_bytes == 1024 * 1024,
        config.shutdown_timeout_ns == 30 * 1_000_000_000,
{
}

/// A body buffer is kept for each slot, but for 64 at most.
pub proof fn law_body_buffers_are_capped(config: ServerConfig, r: usize)
    requires
        call_ensures(ServerConfig::body_slots, (&config,), r),
    ensures
        r <= 64,
        r <= config.concurrency,
        r == 64 || r == config.concurrency,
{
}

/// A request for a prefix that no handler has is answered with an empty 404.
pub proof fn law_unrouted_requests_are_not_found(response: Response)
    requires
        call_ensures(unrouted, (), response),
    ensures
        response@.status == 404,
        response@.reason == "Not Found"@,
        response@.body.len() == 0,
        response@.headers.len() == 0,
        response@.content_type is None,
        response@.cache_seconds is None,
{
}

/// A handler whose prefix the kernel took is the one that requests of its context
/// go to, once the routes are all registered. One whose prefix was refused is gone.
/// Either way every other context leads where it led before.
pub proof fn law_requests_go_to_their_handler<'a, H, F: FnOnce(u64, Cow<'a, str>, u64) -> u32>(
    builder: &mut ServerBuilder<H>,
    group: &UrlGroup,
    url: &'a str,
    handler: H,
    register: F,
    added: Result<()>,
    before: Routes<H>,
    after: Routes<H>,
    context: u64,
    found_before: Option<&H>,
    found_after: Option<&H>,
)
    requires
        old(builder)@.wf(),
        old(builder)@.next_id < u64::MAX,
        call_ensures(
            ServerBuilder::<H>::route::<'a, F>,
            (builder, group, url, handler, register),
            added,
        ),
        call_ensures(ServerBuilder::<H>::into_routes, (*old(builder),), before),
        call_ensures(ServerBuilder::<H>::into_routes, (*final(builder),), after),
        call_ensures(Routes::<H>::get, (&before, context), found_before),
        call_ensures(Routes::<H>::get, (&after, context), found_after),
    ensures
        context == old(builder)@.next_id && added is Ok ==> found_after == Some(&handler),
        context == old(builder)@.next_id ==> found_before is None,
        context != old(builder)@.next_id || added is Err ==> found_after == found_before,
        final(builder)@.next_id == old(builder)@.next_id + 1,
        final(builder)@.config == old(builder)@.config,
{
}

/// The kernel is asked once for each route: for the group, the prefix with one
/// slash at its end, and the context that no route has. The route stands if and
/// only if the kernel returned zero; otherwise its code is the error.
pub proof fn law_the_kernel_decides_on_a_route<'a, H, F: FnOnce(u64, Cow<'a, str>, u64) -> u32>(
    builder: &mut ServerBuilder<H>,
    group: &UrlGroup,
    url: &'a str,
    handler: H,
    register: F,
    added: Result<()>,
)
    requires
        call_ensures(
            ServerBuilder::<H>::route::<'a, F>,
            (builder, group, url, handler, register),
            added,
        ),
    ensures
        exists|prefix: Cow<'a, str>, ec: u32|
            {
                &&& #[trigger] call_ensures(
                    register,
                    (group.id, prefix, old(builder)@.next_id),
                    ec,
                )
                &&& prefix@ == url@ || prefix@ == url@.push('/')
                &&& prefix@.last() == '/'
                &&& url@.len() > 0 && url@.last() == '/' ==> prefix@ == url@
                &&& added is Ok <==> ec == 0
                &&& added matches Err(e) ==> e == Error::Win32(ec)
            },
{
}

/// A builder starts without routes and keeps what it was configured with.
pub proof fn law_a_builder_starts_empty<H>(
    config: ServerConfig,
    builder: ServerBuilder<H>,
    shown: ServerConfig,
    routes: Routes<H>,
    context: u64,
    found: Option<&H>,
)
    requires
        call_ensures(ServerBuilder::<H>::with_config, (config,), builder),
        call_ensures(ServerBuilder::<H>::config, (&builder,), shown),
        call_ensures(ServerBuilder::<H>::into_routes, (builder,), routes),
        call_ensures(Routes::<H>::get, (&routes, context), found),
    ensures
        shown == config,
        found is None,
        builder@.next_id == 1,
{
}

} // verus!
