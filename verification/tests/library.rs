use bytes::Bytes;
use httpsys::buffer::{declared_body_len, BodyPool, BufferPool, RequestBuffer, HEADER_BLOCK_BYTES};
use httpsys::error::Error;
use httpsys::init::{
    closing_failure, normalize_prefix, HttpInitializer, ServerSession, UrlGroup,
};
use httpsys::iocp::{spawn_error, split_batch, thread_count, thread_name, SHUTDOWN_KEY};
use httpsys::overlapped::{completion_error, finish, Finish, OpPool, OverlappedWrap};
use httpsys::queue::{
    body_read_result, body_read_size, op_slots_for, Receive, ReceiveMode, ReceiveStep,
    ERROR_HANDLE_EOF, ERROR_MORE_DATA,
};
use httpsys::request::{
    BodyStart, Method, Request, HEADER_CONNECTION, HEADER_CONTENT_LENGTH, HEADER_CONTENT_TYPE,
    HEADER_HOST, HEADER_USER_AGENT, KNOWN_HEADERS,
};
use httpsys::response::Response;
use httpsys::server::{is_terminal, slot_step, unrouted, ServerBuilder, ServerConfig, SlotStep};
use httpsys::{status, text};
use std::borrow::Cow;

// --- errors ----------------------------------------------------------------

#[test]
fn win32_display_includes_os_message() {
    let text = Error::Win32(5).describe("Access is denied.");
    assert!(text.starts_with("Win32 error 5:"), "got {text}");
    assert_eq!(text, "Win32 error 5: Access is denied.");
}

#[test]
fn check_maps_zero_to_ok() {
    assert!(Error::check(0).is_ok());
    assert_eq!(Error::check(87), Err(Error::Win32(87)));
}

#[test]
fn hresult_round_trips_to_win32() {
    // HRESULT_FROM_WIN32(5)
    let hr = 0x8007_0005u32 as i32;
    assert_eq!(Error::from_hresult(hr).win32_code(), Some(5));
}

#[test]
fn hresults_keep_only_their_low_bits() {
    assert_eq!(Error::from_hresult(0), Error::Win32(0));
    assert_eq!(Error::from_hresult(-1), Error::Win32(0xFFFF));
    assert_eq!(Error::from_hresult(0x7FFF_FFFF), Error::Win32(0xFFFF));
    assert_eq!(Error::from_hresult(0x8007_03E3u32 as i32), Error::Win32(995));
}

#[test]
fn every_error_reads_well() {
    assert_eq!(Error::Win32(87).describe("  "), "Win32 error 87");
    assert_eq!(
        Error::Win32(87).describe(" The parameter is incorrect.\r\n"),
        "Win32 error 87: The parameter is incorrect."
    );
    assert_eq!(
        Error::HeadersTooLarge { needed: 70000 }.describe("ignored"),
        "request headers too large: 70000 bytes needed"
    );
    assert_eq!(Error::QueueClosed.describe("ignored"), "request queue closed");
    assert_eq!(Error::QueueClosed.win32_code(), None);
    assert_eq!(Error::HeadersTooLarge { needed: 1 }.win32_code(), None);
}

// --- initialization --------------------------------------------------------

#[test]
fn prefix_gains_a_trailing_slash() {
    assert_eq!(
        normalize_prefix("http://+:8080/test"),
        "http://+:8080/test/"
    );
    assert_eq!(
        normalize_prefix("http://+:8080/test/"),
        "http://+:8080/test/"
    );
    assert_eq!(normalize_prefix("http://+:8080/"), "http://+:8080/");
}

#[test]
fn a_fit_prefix_is_borrowed() {
    assert!(matches!(normalize_prefix("http://+:1/"), Cow::Borrowed(_)));
    assert!(matches!(normalize_prefix("http://+:1"), Cow::Owned(_)));
    assert_eq!(normalize_prefix(""), "/");
    let once = normalize_prefix("a").into_owned();
    assert_eq!(normalize_prefix(&once), once);
}

#[test]
fn handles_exist_only_where_the_call_succeeded() {
    assert!(HttpInitializer::new(0).is_ok());
    assert_eq!(HttpInitializer::new(5).unwrap_err(), Error::Win32(5));
    let session = ServerSession::new(0, 77).unwrap();
    assert_eq!(session.id, 77);
    assert_eq!(ServerSession::new(8, 77).unwrap_err(), Error::Win32(8));
    let group = UrlGroup::new(&session, 0, 9).unwrap();
    assert_eq!((group.session_id, group.id), (77, 9));
    assert_eq!(UrlGroup::new(&session, 6, 9).unwrap_err(), Error::Win32(6));
}

#[test]
fn add_url_hands_on_the_fit_prefix() {
    let session = ServerSession::new(0, 1).unwrap();
    let group = UrlGroup::new(&session, 0, 9).unwrap();
    let added = group.add_url("http://+:8080/api", 3, |id, prefix, context| {
        assert_eq!((id, context), (9, 3));
        assert_eq!(prefix, "http://+:8080/api/");
        0
    });
    assert!(added.is_ok());
    let refused = group.add_url("http://+:8080/api", 3, |_, _, _| 5);
    assert_eq!(refused, Err(Error::Win32(5)));
}

#[test]
fn closing_reports_failures_only() {
    assert_eq!(closing_failure("HttpTerminate", 0, "fine"), None);
    assert_eq!(
        closing_failure("HttpTerminate", 6, "The handle is invalid."),
        Some("httpsys: HttpTerminate failed: Win32 error 6: The handle is invalid.".to_owned())
    );
}

// --- receive buffers -------------------------------------------------------

#[test]
fn capacity_is_at_least_the_header_block() {
    let buf = RequestBuffer::new(0);
    assert!(buf.capacity() as usize > HEADER_BLOCK_BYTES);
}

#[test]
fn capacity_rounds_up_to_whole_words() {
    assert_eq!(RequestBuffer::new(16 * 1024).capacity(), 16 * 1024);
    assert_eq!(RequestBuffer::new(16 * 1024 + 1).capacity(), 16 * 1024 + 8);
}

#[test]
fn buffers_are_recycled() {
    let mut pool = BufferPool::new(2, 4096, 4096);
    let mut b = pool.take();
    let ptr = b.buffer_mut().words_mut().as_ptr() as usize;
    pool.give_back(b);
    let mut again = pool.take();
    assert_eq!(
        again.buffer_mut().words_mut().as_ptr() as usize,
        ptr,
        "buffer should be reused"
    );
}

#[test]
fn surplus_buffers_are_dropped_not_queued() {
    let mut pool = BufferPool::new(1, 4096, 4096);
    let a = pool.take();
    let b = pool.take();
    pool.give_back(a);
    pool.give_back(b);
    assert_eq!(pool.free_len(), 1);
}

#[test]
fn growing_replaces_the_allocation_only_when_needed() {
    let mut buffer = RequestBuffer::new(16 * 1024);
    let before = buffer.capacity();
    buffer.grow_to(1024);
    assert_eq!(buffer.capacity(), before, "must not shrink");
    buffer.grow_to(64 * 1024);
    assert_eq!(buffer.capacity(), 64 * 1024);
}

#[test]
fn preparing_clears_the_request_id() {
    let mut buffer = RequestBuffer::new(4096);
    for word in buffer.words_mut() {
        *word = 7;
    }
    assert_eq!(buffer.request_id(), 7);
    buffer.prepare();
    assert_eq!(buffer.request_id(), 0);
    assert_eq!(buffer.words_mut()[107], 0);
    assert_eq!(buffer.words_mut()[108], 7, "the slack keeps its contents");
}

#[test]
fn declared_lengths_are_read_or_refused() {
    assert_eq!(declared_body_len(b""), None);
    assert_eq!(declared_body_len(b"65536"), Some(65536));
    assert_eq!(declared_body_len(b"lots"), Some(u64::MAX));
    assert_eq!(declared_body_len(&[0xFF, 0x31]), Some(u64::MAX));
}

#[test]
fn a_slot_settles_on_the_bodies_it_sees() {
    let mut pool = BufferPool::new(1, 16 * 1024, 128 * 1024);
    let mut buffer = pool.take();
    assert_eq!(buffer.fit_body_inline(b"65536"), Some(72 * 1024));
    assert_eq!(buffer.buffer().capacity(), 16 * 1024, "not resized yet");
    buffer.grow_to(72 * 1024);
    assert_eq!(buffer.buffer().capacity(), 72 * 1024);
    assert_eq!(buffer.fit_body_inline(b"10"), Some(8202));
    buffer.grow_to(8202);
    assert_eq!(buffer.buffer().capacity(), 72 * 1024, "must not shrink");
    assert_eq!(buffer.fit_body_inline(b"1000000"), None);
    assert_eq!(buffer.fit_body_inline(b""), Some(0));
}

#[test]
fn body_pool_retains_small_buffers_and_drops_oversized_ones() {
    let mut pool = BodyPool::new(4, 1024);
    let first = pool.take(512);
    pool.give_back(first);
    assert_eq!(pool.free_len(), 1);
    // Taking it back out and growing it past the cap retires the buffer
    // instead of parking a large allocation in the pool forever.
    let second = pool.take(8192);
    pool.give_back(second);
    assert_eq!(pool.free_len(), 0, "oversized buffer must not be retained");
}

#[test]
fn body_pool_hands_back_empty_buffers_with_enough_room() {
    let mut pool = BodyPool::new(2, 1 << 20);
    {
        let mut first = pool.take(4096);
        first.extend_from_slice(&[1u8; 4096]);
        pool.give_back(first);
    }
    let second = pool.take(1024);
    assert!(second.is_empty());
    assert!(second.capacity() >= 4096, "capacity should be reused");
}

// --- completion states -----------------------------------------------------

#[test]
fn completion_is_observed_with_correct_values() {
    // A poll may fall before, between or after the steps of the completion.
    for polls_before in 0..4 {
        let mut wrap = OverlappedWrap::new();
        let mut observed = None;
        for step in 0..4 {
            if step == polls_before {
                observed = wrap.poll_complete();
            }
            match step {
                0 => wrap.store_err(0x1234),
                1 => wrap.store_len(42),
                2 => wrap.store_flag(),
                _ => {}
            }
        }
        if let Some(result) = observed {
            assert_eq!(result, Err(Error::Win32(0x1234)));
        }
        assert_eq!((wrap.err, wrap.len), (0x1234, 42));
        assert_eq!(wrap.poll_complete(), Some(Err(Error::Win32(0x1234))));
    }
}

#[test]
fn poll_never_observes_partial_state() {
    let mut wrap = OverlappedWrap::new();
    assert_eq!(wrap.poll_complete(), None);
    wrap.store_err(7);
    assert_eq!(wrap.poll_complete(), None, "half-written");
    wrap.store_len(11);
    assert_eq!(wrap.poll_complete(), None, "half-written");
    wrap.store_flag();
    assert_eq!((wrap.err, wrap.len), (7, 11));
    assert_eq!(wrap.poll_complete(), Some(Err(Error::Win32(7))));
    assert_eq!(wrap.poll_complete(), Some(Err(Error::Win32(7))));
    let mut whole = OverlappedWrap::new();
    whole.complete(7, 11);
    assert_eq!((whole.err, whole.len), (7, 11));
    assert!(whole.is_completed());
}

#[test]
fn blocking_wait_sees_the_payload() {
    // ERROR_OPERATION_ABORTED, what CancelIoEx produces.
    let mut wrap = OverlappedWrap::new();
    let mut result = None;
    let mut steps = 0;
    while result.is_none() {
        match steps {
            0 => wrap.store_err(995),
            1 => wrap.store_len(0),
            _ => wrap.store_flag(),
        }
        steps += 1;
        result = wrap.poll_complete();
    }
    assert_eq!(steps, 3);
    assert_eq!((wrap.err, wrap.len), (995, 0));
    assert_eq!(result, Some(Err(Error::Win32(995))));
}

#[test]
fn reused_states_start_over() {
    let mut wrap = OverlappedWrap::new();
    wrap.complete(0, 5);
    assert_eq!(wrap.result(), Ok(5));
    wrap.reset();
    assert!(wrap.poll_complete().is_none());
}

#[test]
fn submissions_are_resolved_by_who_owns_the_reference() {
    assert!(matches!(finish(997, true, 0), Finish::Await));
    assert!(matches!(finish(0, false, 9), Finish::Await));
    assert!(matches!(finish(0, true, 9), Finish::Done(Ok(9))));
    assert!(matches!(
        finish(5, false, 9),
        Finish::Done(Err(Error::Win32(5)))
    ));
    assert_eq!(completion_error(None), 0);
    assert_eq!(completion_error(Some(0x8007_0026u32 as i32)), 38);
}

#[test]
fn states_in_use_are_not_reused() {
    let mut pool = OpPool::new(1);
    assert!(pool.can_take());
    let a = pool.take();
    let b = pool.take();
    assert_ne!(a, b);
    assert!(pool.give_back(a, true));
    assert!(!pool.give_back(b, true), "the pool is full");
    assert_eq!(pool.take(), a);
    let c = pool.take();
    assert!(c != a && c != b);
    assert!(!pool.give_back(c, false), "someone else still holds it");
}

// --- receiving -------------------------------------------------------------

#[test]
fn a_body_that_does_not_fit_is_received_again_without_it() {
    let mut pool = BufferPool::new(1, 16 * 1024, 128 * 1024);
    let mut buffer = pool.take();
    let mut mode = ReceiveMode::default();
    let mut receive = Receive::begin(mode, &mut buffer);
    assert!(receive.call.copy_body);
    assert_eq!(receive.call.request_id, 0);
    receive.submitted(ERROR_MORE_DATA, 40000);
    buffer.buffer_mut().words_mut()[2] = 55;
    let step = receive.returned(
        Err(Error::Win32(ERROR_MORE_DATA)),
        b"",
        &buffer,
        &mut mode,
    );
    let again = match step {
        ReceiveStep::Again(again) => again,
        ReceiveStep::Done(_) => panic!("expected a second call"),
    };
    assert_eq!(again.call.request_id, 55);
    assert!(!again.call.copy_body && !mode.copy_body);
    match again.returned(Ok(()), b"65536", &buffer, &mut mode) {
        ReceiveStep::Done(result) => assert_eq!(result, Ok(())),
        ReceiveStep::Again(_) => panic!("expected to be done"),
    }
    assert!(mode.copy_body, "the body fits from now on");
    assert_eq!(buffer.buffer().request_id(), 55, "the request stays");
    assert_eq!(buffer.buffer().capacity(), 16 * 1024);
    // The next receive starts with the room that this one asked for.
    pool.give_back(buffer);
    let mut buffer = pool.take();
    let next = Receive::begin(mode, &mut buffer);
    assert!(next.call.copy_body);
    assert_eq!(buffer.buffer().capacity(), 72 * 1024);
    // A body that never fits keeps being received without it.
    match again.returned(Ok(()), b"1000000", &buffer, &mut mode) {
        ReceiveStep::Done(result) => assert_eq!(result, Ok(())),
        ReceiveStep::Again(_) => panic!("expected to be done"),
    }
    assert!(!mode.copy_body);
    assert_eq!(mode.wanted, 72 * 1024);
}

#[test]
fn headers_that_do_not_fit_are_too_large() {
    let mut pool = BufferPool::new(1, 1024, 1024);
    let mut buffer = pool.take();
    let mut mode = ReceiveMode {
        copy_body: false,
        wanted: 0,
    };
    let mut receive = Receive::begin(mode, &mut buffer);
    receive.submitted(997, 1);
    receive.submitted(ERROR_MORE_DATA, 70000);
    match receive.returned(
        Err(Error::Win32(ERROR_MORE_DATA)),
        b"",
        &buffer,
        &mut mode,
    ) {
        ReceiveStep::Done(result) => {
            assert_eq!(result, Err(Error::HeadersTooLarge { needed: 70000 }))
        }
        ReceiveStep::Again(_) => panic!("expected to be done"),
    }
}

#[test]
fn other_receive_errors_are_passed_on() {
    let mut pool = BufferPool::new(1, 1024, 1024);
    let mut buffer = pool.take();
    let mut mode = ReceiveMode::default();
    let receive = Receive::begin(mode, &mut buffer);
    match receive.returned(Err(Error::Win32(995)), b"", &buffer, &mut mode) {
        ReceiveStep::Done(result) => assert_eq!(result, Err(Error::Win32(995))),
        ReceiveStep::Again(_) => panic!("expected to be done"),
    }
    assert!(mode.copy_body);
}

#[test]
fn body_reads_end_at_end_of_file() {
    assert_eq!(body_read_size(0), None);
    assert_eq!(body_read_size(4096), Some(4096));
    assert_eq!(body_read_size(0x1_0000_0005), Some(5));
    assert_eq!(body_read_result(Ok(7)), Ok(Some(7)));
    assert_eq!(
        body_read_result(Err(Error::Win32(ERROR_HANDLE_EOF))),
        Ok(None)
    );
    assert_eq!(
        body_read_result(Err(Error::QueueClosed)),
        Err(Error::QueueClosed)
    );
    assert_eq!(op_slots_for(16), 32);
}

// --- completion port -------------------------------------------------------

#[test]
fn a_batch_is_finished_before_the_thread_leaves() {
    let batch = split_batch(&[4, SHUTDOWN_KEY, 8, 4]);
    assert_eq!(batch.deliver, vec![0, 2, 3]);
    assert!(batch.stop);
    assert_eq!(batch.surplus, 0);
    let batch = split_batch(&[4, 8]);
    assert_eq!(batch.deliver, vec![0, 1]);
    assert!(!batch.stop);
    assert_eq!(batch.surplus, 0);
    let batch = split_batch(&[SHUTDOWN_KEY, 8, SHUTDOWN_KEY, SHUTDOWN_KEY]);
    assert_eq!(batch.deliver, vec![1]);
    assert!(batch.stop);
    assert_eq!(batch.surplus, 2, "meant for other threads");
    assert!(split_batch(&[]).deliver.is_empty());
}

#[test]
fn completion_threads_are_named_and_counted() {
    assert_eq!(thread_count(0), 1);
    assert_eq!(thread_count(6), 6);
    assert_eq!(thread_name(12), "httpsys-iocp-12");
    assert_eq!(spawn_error(None), Error::Win32(8));
    assert_eq!(spawn_error(Some(11)), Error::Win32(11));
    assert_eq!(spawn_error(Some(-1)), Error::Win32(u32::MAX));
}

// --- requests --------------------------------------------------------------

#[test]
fn known_methods_parse() {
    assert_eq!("GET".parse::<Method>().unwrap(), Method::Get);
    assert_eq!("PATCH".parse::<Method>().unwrap(), Method::Patch);
}

#[test]
fn extension_method_falls_back_to_other() {
    assert_eq!(
        "PROPFIND".parse::<Method>().unwrap(),
        Method::Other("PROPFIND".to_owned())
    );
}

#[test]
fn numbers_and_names_agree() {
    let names = [
        "OPTIONS", "GET", "HEAD", "POST", "PUT", "DELETE", "TRACE", "CONNECT",
    ];
    for (i, name) in names.iter().enumerate() {
        assert_eq!(Method::numbered(i as i32 + 3), Method::named(name));
    }
    assert_eq!(
        Method::numbered(12),
        Method::Other("HTTP_VERB(12)".to_owned())
    );
    assert_eq!(
        Method::numbered(i32::MIN),
        Method::Other("HTTP_VERB(-2147483648)".to_owned())
    );
}

fn request<'a>(flags: u32, inline: &'a [u8], content_length: &'a [u8]) -> Request<'a> {
    let mut known_headers: Vec<&'a [u8]> = vec![b""; KNOWN_HEADERS];
    known_headers[HEADER_CONTENT_LENGTH] = content_length;
    known_headers[HEADER_HOST] = b"localhost:8080";
    known_headers[HEADER_USER_AGENT] = &[0xFF];
    known_headers[HEADER_CONTENT_TYPE] = b"text/plain";
    Request {
        context: 3,
        id: 55,
        connection: 66,
        verb: 4,
        unknown_verb: b"",
        raw_url: b"/api/x?y=1",
        flags,
        inline,
        known_headers,
    }
}

#[test]
fn accessors_read_the_request() {
    let r = request(0, b"", b"12");
    assert_eq!(r.url_context(), 3);
    assert_eq!(r.request_id(), 55);
    assert_eq!(r.connection_id(), 66);
    assert_eq!(r.url(), "/api/x?y=1");
    assert_eq!(r.host(), Some("localhost:8080"));
    assert_eq!(r.user_agent(), None, "not UTF-8");
    assert_eq!(r.content_type(), Some("text/plain"));
    assert_eq!(r.connection(), None);
    assert_eq!(r.known_headers[HEADER_CONNECTION].len(), 0);
    assert_eq!(r.content_length(), Some(12));
    assert_eq!(request(0, b"", b"x").content_length(), None);
    assert_eq!(r.method(), Method::Get);
    let mut named = request(0, b"", b"");
    named.unknown_verb = b"PATCH";
    assert_eq!(named.method(), Method::Patch);
    named.unknown_verb = b"BREW";
    assert_eq!(named.method(), Method::Other("BREW".to_owned()));
    named.unknown_verb = &[0x41, 0xFF];
    assert_eq!(named.method(), Method::Other("A\u{FFFD}".to_owned()));
}

#[test]
fn a_url_that_is_no_text_is_mended() {
    let mut r = request(0, b"", b"");
    r.raw_url = &[0x2F, 0xFF, 0x61];
    assert_eq!(r.url(), "/\u{FFFD}a");
}

#[test]
fn an_inline_body_is_borrowed() {
    let mut bodies = BodyPool::new(2, 1 << 20);
    let r = request(0, b"hello", b"5");
    match r.body(&mut bodies) {
        BodyStart::Inline(body) => {
            assert!(body.is_inline());
            assert_eq!(body.as_slice(), b"hello");
            assert!(body.into_buffer().is_none());
        }
        BodyStart::Streamed(_) => panic!("expected an inline body"),
    }
}

#[test]
fn a_streamed_body_arrives_in_order() {
    let mut bodies = BodyPool::new(2, 1 << 20);
    let r = request(1, b"he", b"5");
    let mut read = match r.body(&mut bodies) {
        BodyStart::Streamed(read) => read,
        BodyStart::Inline(_) => panic!("expected a streamed body"),
    };
    assert_eq!(read.spare_mut().len(), 3, "sized from Content-Length");
    read.spare_mut()[..2].copy_from_slice(b"ll");
    assert!(!read.read(Some(2)));
    read.spare_mut()[..1].copy_from_slice(b"o");
    assert!(!read.read(Some(1)));
    assert!(read.spare_mut().len() >= 262144, "a full buffer grows");
    assert!(read.read(None));
    let body = read.finish();
    assert!(!body.is_inline());
    assert_eq!(body.as_slice(), b"hello");
    bodies.give_back(body.into_buffer().unwrap());
    assert_eq!(bodies.free_len(), 1);
}

#[test]
fn an_outsized_streamed_body_is_not_kept() {
    let mut bodies = BodyPool::new(2, 300_000);
    let r = request(1, b"", b"");
    let mut read = match r.body(&mut bodies) {
        BodyStart::Streamed(read) => read,
        BodyStart::Inline(_) => panic!("expected a streamed body"),
    };
    assert_eq!(read.spare_mut().len(), 262144);
    assert!(!read.read(Some(262144)));
    assert_eq!(read.spare_mut().len(), 262144, "a full buffer doubles");
    assert!(!read.read(Some(262144)));
    assert_eq!(read.spare_mut().len(), 524288, "a full buffer doubles");
    assert!(read.read(None));
    let body = read.finish();
    assert_eq!(body.as_slice().len(), 524288);
    let buffer = body.into_buffer().unwrap();
    assert_eq!(buffer.capacity(), 1048576);
    bodies.give_back(buffer);
    assert_eq!(bodies.free_len(), 0);
}

#[test]
fn a_failed_body_read_returns_its_buffer() {
    let mut bodies = BodyPool::new(2, 1 << 20);
    let r = request(1, b"he", b"");
    match r.body(&mut bodies) {
        BodyStart::Streamed(mut read) => {
            assert!(read.spare_mut().len() >= 262144);
            assert!(read.read(Some(0)), "an empty read ends the body");
            bodies.give_back(read.abandon());
        }
        BodyStart::Inline(_) => panic!("expected a streamed body"),
    }
    assert_eq!(bodies.free_len(), 1);
}

// --- responses -------------------------------------------------------------

#[test]
fn builders_set_the_expected_fields() {
    let r = Response::ok_text("hello").with_header("X-Trace", "abc");
    assert_eq!(r.status(), 200);
    assert_eq!(&r.body()[..], b"hello");
    assert_eq!(r.content_type(), Some("text/plain; charset=utf-8"));
    assert_eq!(r.headers(), &vec![("X-Trace", Cow::Borrowed("abc"))]);
}

#[test]
fn raw_view_points_at_the_body_and_headers() {
    let response = Response::ok_json("{}").with_header("X-A", "1");
    let raw = response.to_raw();
    assert_eq!(raw.status, 200);
    assert_eq!(raw.entity_chunks, 1);
    assert_eq!(raw.unknown_count, 1);
    assert_eq!(raw.body_len, 2);
    assert_eq!(raw.unknown, vec![(3, 1)]);
    assert_eq!(raw.reason_len, 2);
    assert_eq!(raw.content_type_len, Some(16));
    assert_eq!(&response.body()[..], b"{}");
}

#[test]
fn empty_body_emits_no_entity_chunk() {
    let response = Response::new(status::NO_CONTENT);
    let raw = response.to_raw();
    assert_eq!(raw.entity_chunks, 0);
    assert_eq!(raw.body_len, 0);
    assert_eq!(raw.content_type_len, None);
}

#[test]
fn unknown_status_still_gets_a_reason_phrase() {
    assert_eq!(Response::new(599).reason(), "Unknown");
}

#[test]
fn bodies_are_taken_from_texts_vectors_and_bytes() {
    let r = Response::new(201)
        .with_body(vec![1u8, 2])
        .with_body(Bytes::from_static(b"last"))
        .cache_in_kernel_for_secs(9);
    assert_eq!(&r.body()[..], b"last");
    assert_eq!(r.reason(), "Created");
    assert_eq!(r.cache_seconds(), Some(9));
    assert_eq!(r.content_type(), None);
    let copy = r.clone();
    assert_eq!(&copy.body()[..], b"last");
    let slice: &'static [u8] = b"slice";
    assert_eq!(&Response::ok_json(slice).body()[..], b"slice");
    let text = Response::ok_text("gr\u{fc}n".to_owned());
    assert_eq!(&text.body()[..], b"gr\xc3\xbcn");
    let again = text.with_body("old").with_body(vec![7u8]);
    assert_eq!(&again.body()[..], &[7]);
    assert_eq!(again.content_type(), Some("text/plain; charset=utf-8"));
    assert_eq!(Response::default().status(), 200);
    assert_eq!(Response::default().cache_seconds(), None);
    let owned = Response::new(200).with_header("X-A", "b".to_owned());
    assert_eq!(owned.headers(), &vec![("X-A", Cow::Borrowed("b"))]);
    let long = Response::new(200).with_header("X-Long", "a".repeat(0x1_0003));
    assert_eq!(long.to_raw().unknown, vec![(6, 3)]);
}

#[test]
fn statuses_have_their_words() {
    assert_eq!(status::reason_phrase(404), "Not Found");
    assert_eq!(
        status::reason_phrase(431),
        "Request Header Fields Too Large"
    );
    assert!(status::is_success(200) && status::is_success(299));
    assert!(!status::is_success(199) && !status::is_success(300));
}

// --- server ----------------------------------------------------------------

#[test]
fn default_config_is_self_consistent() {
    for cores in [1, 2, 3, 8, 128] {
        let config = ServerConfig::for_cores(cores);
        assert!(config.concurrency >= 32);
        assert!(config.io_threads >= 2);
        assert!(config.request_buffer_bytes >= 4096);
        assert!(config.max_request_buffer_bytes >= config.request_buffer_bytes);
        assert!(config.queue_length > 0);
        assert!(config.max_pooled_body_bytes >= config.request_buffer_bytes);
    }
    let config = ServerConfig::for_cores(8);
    assert_eq!((config.concurrency, config.io_threads), (256, 4));
    assert_eq!(config.body_slots(), 64);
    assert_eq!(ServerConfig::for_cores(1).body_slots(), 32);
    assert_eq!(config.shutdown_timeout_ns, 30_000_000_000);
}

#[test]
fn terminal_errors_are_recognised() {
    assert!(is_terminal(&Error::Win32(995))); // ERROR_OPERATION_ABORTED
    assert!(is_terminal(&Error::Win32(6))); // ERROR_INVALID_HANDLE
    assert!(!is_terminal(&Error::Win32(234))); // ERROR_MORE_DATA
    assert!(!is_terminal(&Error::HeadersTooLarge { needed: 1 }));
    assert!(is_terminal(&Error::Win32(18))); // ERROR_NO_MORE_FILES
    assert!(is_terminal(&Error::QueueClosed));
}

#[test]
fn a_slot_refuses_oversized_headers_and_goes_on() {
    match slot_step(&Err(Error::HeadersTooLarge { needed: 9 }), 55) {
        SlotStep::Reply(id, response) => {
            assert_eq!(id, 55);
            assert_eq!(response.status(), 431);
            assert!(response.body().is_empty());
        }
        _ => panic!("expected a reply"),
    }
    assert!(matches!(
        slot_step(&Err(Error::HeadersTooLarge { needed: 9 }), 0),
        SlotStep::Next
    ));
    assert!(matches!(slot_step(&Ok(()), 55), SlotStep::Handle));
    assert!(matches!(
        slot_step(&Err(Error::Win32(87)), 55),
        SlotStep::Next
    ));
    assert!(matches!(
        slot_step(&Err(Error::Win32(995)), 55),
        SlotStep::Stop
    ));
    assert!(matches!(
        slot_step(&Err(Error::QueueClosed), 55),
        SlotStep::Stop
    ));
}

#[test]
fn routes_are_found_by_context() {
    let session = ServerSession::new(0, 1).unwrap();
    let group = UrlGroup::new(&session, 0, 9).unwrap();
    let mut builder: ServerBuilder<&str> = ServerBuilder::with_config(ServerConfig::for_cores(2));
    let added = builder.route(&group, "http://+:1/a", "first", |id, prefix, context| {
        assert_eq!((id, context), (9, 1));
        assert_eq!(prefix, "http://+:1/a/");
        0
    });
    assert!(added.is_ok());
    assert_eq!(
        builder.route(&group, "http://+:1/b", "refused", |_, _, _| 5),
        Err(Error::Win32(5))
    );
    assert!(builder
        .route(&group, "http://+:1/c", "third", |_, _, context| {
            assert_eq!(context, 3, "a refused prefix uses up its context");
            0
        })
        .is_ok());
    assert_eq!(builder.config().concurrency, 64);
    let routes = builder.into_routes();
    assert_eq!(routes.get(1), Some(&"first"));
    assert_eq!(routes.get(2), None);
    assert_eq!(routes.get(3), Some(&"third"));
    assert_eq!(unrouted().status(), 404);
}

// --- text ------------------------------------------------------------------

#[test]
fn numbers_are_written_and_read() {
    assert_eq!(text::decimal_text(0), "0");
    assert_eq!(text::decimal_text(u64::MAX), "18446744073709551615");
    assert_eq!(text::parse_number("18446744073709551615", u64::MAX), Some(u64::MAX));
    assert_eq!(text::parse_number("18446744073709551616", u64::MAX), None);
    assert_eq!(text::parse_number("+7", 10), Some(7));
    assert_eq!(text::parse_number("11", 10), None);
    assert_eq!(text::parse_number("", 10), None);
    assert_eq!(text::parse_number("-1", 10), None);
    assert_eq!(text::trim_text(" \u{3000}a b\t"), "a b");
}
