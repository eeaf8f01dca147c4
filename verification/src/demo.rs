//! The demo server and the payloads that it is tested with.

use crate::address;
use crate::response::{Response, ResponseView};
use crate::status;
use crate::text;
use rand::distributions::{Alphanumeric, DistString};
use rand::Rng;
use vstd::prelude::*;
use vstd::utf8;

verus! {

/// The first port that a test server may get.
pub const FIRST_PORT: u16 = 3333;

/// The port after the last that a test server may get.
pub const END_PORT: u16 = 9999;

/// The smallest payload in bytes that latency is measured with.
pub const FIRST_PAYLOAD: usize = 1024;

/// The limit on payloads in bytes that latency is measured with.
pub const LARGEST_PAYLOAD: usize = 8_388_608;

/// Where the demo server listens.
#[derive(Debug)]
pub struct DemoUrls {
    /// Answers every request.
    pub test: String,
    /// Stops the server.
    pub kill: String,
}

/// Where the demo server listens, given the address that it was started with.
/// `None` only if that is no URL, or too long to take the paths.
pub fn demo_urls(receive_url: &str) -> (r: Option<DemoUrls>)
    ensures
        match r {
            Some(urls) => {
                &&& address::url_with_path(receive_url@, "/test"@) == Some(urls.test@)
                &&& address::url_with_path(receive_url@, "/kill"@) == Some(urls.kill@)
            },
            None => !address::can_reroute(receive_url@, "/test"@),
        },
{
    proof {
        lemma_plain_path("/test"@);
        lemma_plain_path("/kill"@);
    }
    match address::reroute(receive_url, "/test") {
        Some(test) => match address::reroute(receive_url, "/kill") {
            Some(kill) => Some(DemoUrls { test, kill }),
            None => None,
        },
        None => None,
    }
}

/// Nothing in the two paths is escaped.
proof fn lemma_plain_path(path: Seq<char>)
    requires
        path == "/test"@ || path == "/kill"@,
    ensures
        address::escaped_len(utf8::encode_utf8(path)) == 5,
{
    reveal_strlit("/test");
    reveal_strlit("/kill");
    assert(utf8::is_ascii_chars(path));
    utf8::is_ascii_chars_encode_utf8(path);
    reveal_with_fuel(address::escaped_len, 6);
}

/// What the demo server answers.
pub fn demo_reply() -> (r: Response)
    ensures
        r@ == ResponseView::bare(status::OK).content_type("text/plain; charset=utf-8"@).body(
            utf8::encode_utf8("OK"@),
        ),
{
    Response::ok_text("OK")
}

/// What to say when the server could not be set up.
pub fn init_failure(error: &str) -> (r: String)
    ensures
        r@ == "Failed to initialize HTTP server: "@ + error@,
{
    let mut out = "Failed to initialize HTTP server: ".to_owned();
    out.append(error);
    out
}

/// What to say when the test address could not be bound.
pub fn test_bind_failure(test_url: &str, receive_url: &str, error: &str) -> (r: String)
    ensures
        r@ == "Failed to bind URL "@ + test_url@
            + " (try running elevated, or register a URL ACL with `netsh http add urlacl url="@
            + receive_url@ + "test/ user=Everyone`): "@ + error@,
{
    let mut out = "Failed to bind URL ".to_owned();
    out.append(test_url);
    out.append(" (try running elevated, or register a URL ACL with `netsh http add urlacl url=");
    out.append(receive_url);
    out.append("test/ user=Everyone`): ");
    out.append(error);
    out
}

/// What to say when the kill address could not be bound.
pub fn kill_bind_failure(kill_url: &str, error: &str) -> (r: String)
    ensures
        r@ == "Failed to bind "@ + kill_url@ + ": "@ + error@,
{
    let mut out = "Failed to bind ".to_owned();
    out.append(kill_url);
    out.append(": ");
    out.append(error);
    out
}

/// A random number, from `Rng::gen_range` on the thread's generator, which
/// panics on an empty range. Any number in the range may come out.
#[verifier::external_body]
fn random_in(low: u16, end: u16) -> (r: u16)
    requires
        low < end,
    ensures
        low <= r < end,
{
    rand::thread_rng().gen_range(low..end)
}

/// A random text of ASCII letters and digits, from `Alphanumeric` through
/// `DistString::sample_string` on the thread's generator. Any text of that
/// length may come out.
#[verifier::external_body]
fn random_text(len: usize) -> (r: String)
    requires
        len <= isize::MAX,
    ensures
        r@.len() == len,
        forall|i: int|
            0 <= i < r@.len() ==> text::is_letter(#[trigger] r@[i]) || text::is_digit(r@[i]),
{
    Alphanumeric.sample_string(&mut rand::thread_rng(), len)
}

/// A port for a test server, picked at random.
pub fn random_port() -> (r: u16)
    ensures
        FIRST_PORT <= r < END_PORT,
{
    random_in(FIRST_PORT, END_PORT)
}

/// A random payload of so many ASCII letters and digits.
pub fn generate_random_payload(data_size: usize) -> (r: String)
    requires
        data_size <= isize::MAX,
    ensures
        r@.len() == data_size,
        utf8::encode_utf8(r@).len() == data_size,
        forall|i: int|
            0 <= i < r@.len() ==> text::is_letter(#[trigger] r@[i]) || text::is_digit(r@[i]),
{
    let payload = random_text(data_size);
    assert(utf8::is_ascii_chars(payload@));
    proof {
        utf8::is_ascii_chars_encode_utf8(payload@);
    }
    payload
}

/// The payload sizes from `size` on: each a quarter larger than the one before,
/// rounded down, up to the limit.
pub open spec fn sizes_from(size: nat) -> Seq<nat>
    decreases 2 * LARGEST_PAYLOAD - size,
{
    if 4 <= size <= LARGEST_PAYLOAD {
        seq![size] + sizes_from(size + size / 4)
    } else {
        Seq::empty()
    }
}

/// The payload sizes that latency is measured with.
pub fn payload_sizes() -> (r: Vec<usize>)
    ensures
        r@.map_values(|n: usize| n as nat) == sizes_from(FIRST_PAYLOAD as nat),
{
    let mut sizes: Vec<usize> = Vec::new();
    let mut size: usize = FIRST_PAYLOAD;
    while size <= LARGEST_PAYLOAD
        invariant
            FIRST_PAYLOAD <= size <= LARGEST_PAYLOAD + LARGEST_PAYLOAD / 4,
            sizes@.map_values(|n: usize| n as nat) + sizes_from(size as nat) == sizes_from(
                FIRST_PAYLOAD as nat,
            ),
        decreases 2 * LARGEST_PAYLOAD - size,
    {
        let ghost before = sizes@.map_values(|n: usize| n as nat);
        sizes.push(size);
        assert(sizes@.map_values(|n: usize| n as nat) =~= before.push(size as nat));
        let next = size + size / 4;
        assert(before.push(size as nat) + sizes_from(next as nat) =~= before + (seq![size as nat]
            + sizes_from(next as nat)));
        size = next;
    }
    assert(sizes@.map_values(|n: usize| n as nat) + Seq::<nat>::empty() =~= sizes@.map_values(
        |n: usize| n as nat,
    ));
    sizes
}

/// Every payload from `size` on is larger than the one before it, and none is
/// above the limit.
pub proof fn law_payloads_grow(size: nat, i: int)
    requires
        4 <= size,
        0 <= i < sizes_from(size).len(),
    ensures
        size <= sizes_from(size)[i] <= LARGEST_PAYLOAD,
        i + 1 < sizes_from(size).len() ==> sizes_from(size)[i + 1] == sizes_from(size)[i]
            + sizes_from(size)[i] / 4,
    decreases i,
{
    let rest = sizes_from(size + size / 4);
    if i == 0 {
        if sizes_from(size).len() > 1 {
            assert(rest[0] == size + size / 4);
        }
    } else {
        law_payloads_grow(size + size / 4, i - 1);
        assert(sizes_from(size)[i] == rest[i - 1]);
        if i + 1 < sizes_from(size).len() {
            assert(sizes_from(size)[i + 1] == rest[i]);
        }
    }
}

/// The demo server listens under two paths of the address that it was started with,
/// or nowhere if that is no URL or too long to take them.
pub proof fn law_where_the_demo_server_listens(
    url: &str,
    r: Option<DemoUrls>,
    test: &str,
    kill: &str,
    rerouted_test: Option<String>,
    rerouted_kill: Option<String>,
)
    requires
        test@ == "/test"@,
        kill@ == "/kill"@,
        call_ensures(demo_urls, (url,), r),
        call_ensures(address::reroute, (url, test), rerouted_test),
        call_ensures(address::reroute, (url, kill), rerouted_kill),
    ensures
        r matches Some(urls) ==> address::url_with_path(url@, "/test"@) == Some(urls.test@)
            && address::url_with_path(url@, "/kill"@) == Some(urls.kill@),
        r matches Some(urls) ==> (rerouted_test matches Some(t) ==> urls.test@ == t@),
        r matches Some(urls) ==> (rerouted_kill matches Some(k) ==> urls.kill@ == k@),
        r is None ==> rerouted_test is None && rerouted_kill is None,
{
    lemma_plain_path("/test"@);
    lemma_plain_path("/kill"@);
}

/// The demo server answers everything with a plain 200 that says OK.
pub proof fn law_what_the_demo_server_answers(reply: Response)
    requires
        call_ensures(demo_reply, (), reply),
    ensures
        reply@.status == 200,
        reply@.reason == "OK"@,
        reply@.content_type == Some("text/plain; charset=utf-8"@),
        reply@.body == utf8::encode_utf8("OK"@),
        reply@.headers.len() == 0,
        reply@.cache_seconds is None,
{
}

/// What goes wrong is reported with what it is about and why, whatever these are.
pub proof fn law_failures_are_reported(
    test_url: &str,
    kill_url: &str,
    receive_url: &str,
    error: &str,
    init: String,
    test: String,
    kill: String,
)
    requires
        call_ensures(init_failure, (error,), init),
        call_ensures(test_bind_failure, (test_url, receive_url, error), test),
        call_ensures(kill_bind_failure, (kill_url, error), kill),
    ensures
        init@ == "Failed to initialize HTTP server: "@ + error@,
        test@ == "Failed to bind URL "@ + test_url@
            + " (try running elevated, or register a URL ACL with `netsh http add urlacl url="@
            + receive_url@ + "test/ user=Everyone`): "@ + error@,
        kill@ == "Failed to bind "@ + kill_url@ + ": "@ + error@,
{
}

/// Whatever is drawn, a test server's port is between 3333 and 9998, and a payload
/// has the size that is asked for, in characters and in bytes, of ASCII letters and
/// digits alone.
pub proof fn law_what_is_drawn(port: u16, size: usize, payload: String, i: int)
    requires
        call_ensures(random_port, (), port),
        call_ensures(generate_random_payload, (size,), payload),
    ensures
        3333 <= port <= 9998,
        payload@.len() == size,
        utf8::encode_utf8(payload@).len() == size,
        0 <= i < size ==> {
            let c = payload@[i];
            'a' <= c <= 'z' || 'A' <= c <= 'Z' || '0' <= c <= '9'
        },
{
}

/// Payloads start at a kilobyte, and each is a quarter larger than the one before,
/// rounded down, through the last one that is no larger than eight megabytes.
pub proof fn law_which_payloads_are_measured(r: Vec<usize>, i: int)
    requires
        call_ensures(payload_sizes, (), r),
    ensures
        r@.len() > 0 && r@[0] == 1024,
        0 <= i < r@.len() ==> r@[i] <= 8 * 1024 * 1024,
        0 <= i && i + 1 < r@.len() ==> r@[i + 1] == r@[i] + r@[i] / 4,
        r@.last() + r@.last() / 4 > 8 * 1024 * 1024,
{
    let sizes = sizes_from(FIRST_PAYLOAD as nat);
    assert(r@.map_values(|n: usize| n as nat) == sizes);
    assert(sizes.len() > 0 && sizes[0] == 1024);
    assert(r@.len() == sizes.len());
    assert forall|k: int| 0 <= k < r@.len() implies #[trigger] r@[k] as nat == sizes[k] by {
        assert(r@.map_values(|n: usize| n as nat)[k] == r@[k] as nat);
    }
    assert(r@[0] as nat == sizes[0]);
    if 0 <= i < r@.len() {
        law_payloads_grow(FIRST_PAYLOAD as nat, i);
        assert(r@[i] as nat == sizes[i]);
        if i + 1 < r@.len() {
            assert(r@[i + 1] as nat == sizes[i + 1]);
        }
    }
    lemma_last_payload(FIRST_PAYLOAD as nat);
    assert(r@[r@.len() - 1] as nat == sizes[sizes.len() - 1]);
}

proof fn lemma_last_payload(size: nat)
    requires
        4 <= size <= LARGEST_PAYLOAD,
    ensures
        sizes_from(size).len() > 0,
        sizes_from(size).last() + sizes_from(size).last() / 4 > LARGEST_PAYLOAD,
    decreases LARGEST_PAYLOAD - size,
{
    let next = size + size / 4;
    let rest = sizes_from(next);
    assert(sizes_from(size) == seq![size] + rest);
    if next <= LARGEST_PAYLOAD {
        lemma_last_payload(next);
        assert(sizes_from(size).last() == rest.last());
    } else {
        assert(rest.len() == 0);
        assert(sizes_from(size).last() == size);
    }
}

} // verus!
