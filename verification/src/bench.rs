//! The servers under test.
//!
//! Each exposes the same two endpoints and does the same work per request: read
//! the whole request body, and reply `200 OK` with a two-byte `text/plain` body.

use crate::error::Error;
use crate::response::{Response, ResponseView};
use crate::server::ServerConfig;
use crate::status;
use crate::text::{self, Edge};
use vstd::prelude::*;
use vstd::utf8;

verus! {

/// Which HTTP stack to serve with.
#[derive(Debug, Clone, Copy, PartialEq, Eq, Structural)]
pub enum Engine {
    /// This library.
    Httpsys,
    /// `axum` on hyper, the reference point.
    Axum,
}

impl Engine {
    /// What the engine is called.
    pub open spec fn name(self) -> Seq<char> {
        match self {
            Engine::Httpsys => "httpsys"@,
            Engine::Axum => "axum"@,
        }
    }

    /// What the engine is called, on the command line and in reports.
    pub fn label(self) -> (r: &'static str)
        ensures
            r@ == self.name(),
    {
        match self {
            Engine::Httpsys => "httpsys",
            Engine::Axum => "axum",
        }
    }
}

/// Default path the load generator drives.
pub const BENCH_PATH: &'static str = "/bench/";

/// The body of every reply.
pub const REPLY: &'static str = "OK";

/// The content type of every reply.
pub const REPLY_CONTENT_TYPE: &'static str = "text/plain; charset=utf-8";

/// How long the kernel may answer with a reply by itself.
pub const CACHE_SECONDS: u32 = 60;

/// What stands before the last `mark` of a text, nothing if there is none.
pub open spec fn before_last(text: Seq<char>, mark: char) -> Seq<char>
    decreases text.len(),
{
    if text.len() == 0 {
        text
    } else if text.last() == mark {
        text.drop_last()
    } else {
        before_last(text.drop_last(), mark)
    }
}

/// The directory that a path stands in.
pub open spec fn parent(path: Seq<char>) -> Seq<char> {
    before_last(text::trim_end_by(path, Edge::Mark('/')), '/')
}

/// The sibling `shutdown/` path for a given bench path.
///
/// Keeping the two under one parent matters for http.sys: a URL ACL is granted
/// per prefix, so both routes have to live inside the reservation the process
/// is allowed to listen on.
pub fn shutdown_path(bench_path: &str) -> (r: String)
    ensures
        r@ == parent(bench_path@) + "/shutdown/"@,
{
    let trimmed = text::trim_end_text(bench_path, Edge::Mark('/'));
    let chars = text::chars_of(trimmed.as_str());
    let mut end: usize = chars.len();
    let mut found = false;
    assert(chars@.take(chars@.len() as int) =~= chars@);
    while end > 0 && !found
        invariant
            end <= chars@.len(),
            !found ==> before_last(chars@.take(end as int), '/') == before_last(chars@, '/'),
            found ==> chars@.take(end as int) == before_last(chars@, '/'),
        decreases end,
    {
        assert(chars@.take(end as int).drop_last() =~= chars@.take(end - 1));
        if chars[end - 1] == '/' {
            found = true;
        }
        end -= 1;
    }
    let mut out = text::text_of(&chars, 0, end);
    assert(out@ =~= before_last(chars@, '/'));
    out.append("/shutdown/");
    out
}

/// The prefix that the kernel is asked for.
pub open spec fn prefix(port: u16, path: Seq<char>) -> Seq<char> {
    "http://+:"@ + text::decimal(port as nat) + path
}

/// The prefix that the kernel is asked for, given the port and the path.
pub fn prefix_url(port: u16, path: &str) -> (r: String)
    ensures
        r@ == prefix(port, path@),
{
    let mut out = "http://+:".to_owned();
    text::push_decimal(&mut out, port as u64);
    out.append(path);
    out
}

/// Knobs that only affect the httpsys engine.
#[derive(Debug, Clone, Copy)]
pub struct ServeOptions {
    /// Bytes per receive buffer; anything that fits arrives in one call.
    pub request_buffer_bytes: usize,
    /// Let the kernel answer from its cache.
    pub kernel_cache: bool,
}

impl ServeOptions {
    /// The configuration to serve with, given the one that the machine calls for.
    pub fn config(&self, machine: ServerConfig) -> (r: ServerConfig)
        ensures
            r == (ServerConfig { request_buffer_bytes: self.request_buffer_bytes, ..machine }),
    {
        ServerConfig { request_buffer_bytes: self.request_buffer_bytes, ..machine }
    }

    /// What the bench endpoint replies.
    pub open spec fn reply_view(self) -> ResponseView {
        let reply = ResponseView::bare(status::OK).content_type(REPLY_CONTENT_TYPE@).body(
            utf8::encode_utf8(REPLY@),
        );
        if self.kernel_cache {
            reply.cached(CACHE_SECONDS)
        } else {
            reply
        }
    }

    /// What the bench endpoint replies.
    pub fn reply(&self) -> (r: Response)
        ensures
            r@ == self.reply_view(),
    {
        let response = Response::new(status::OK).with_content_type(REPLY_CONTENT_TYPE).with_body(
            REPLY,
        );
        if self.kernel_cache {
            response.cache_in_kernel_for_secs(CACHE_SECONDS)
        } else {
            response
        }
    }
}

/// Win32 `ERROR_ACCESS_DENIED`.
pub const ERROR_ACCESS_DENIED: u32 = 5;

/// What to say when the kernel refused a prefix. `os_message` is the system's
/// wording for the error.
///
/// `ERROR_ACCESS_DENIED` almost always means a missing URL ACL, which is not
/// obvious from the raw message.
pub fn url_acl_hint(error: &Error, port: u16, path: &str, os_message: &str) -> (r: String)
    ensures
        r@ == if *error == Error::Win32(ERROR_ACCESS_DENIED) {
            "cannot reserve "@ + prefix(port, path@) + " ("@ + error.description(os_message@)
                + ").\nEither run once as administrator:\n    netsh http add urlacl url="@ + prefix(
                port,
                "/"@,
            )
                + " user=Everyone\nor reuse the reservation every user already has:\n    --port 80 --path /Temporary_Listen_Addresses/bench/"@
        } else {
            "cannot reserve "@ + prefix(port, path@) + ": "@ + error.description(os_message@)
        },
{
    let mut out = "cannot reserve ".to_owned();
    out.append(prefix_url(port, path).as_str());
    let denied = match error.win32_code() {
        Some(code) => code == ERROR_ACCESS_DENIED,
        None => false,
    };
    if denied {
        out.append(" (");
        out.append(error.describe(os_message).as_str());
        out.append(").\nEither run once as administrator:\n    netsh http add urlacl url=");
        out.append(prefix_url(port, "/").as_str());
        out.append(
            " user=Everyone\nor reuse the reservation every user already has:\n    --port 80 --path /Temporary_Listen_Addresses/bench/",
        );
    } else {
        out.append(": ");
        out.append(error.describe(os_message).as_str());
    }
    out
}

/// The shutdown path stands in the same directory as the bench path, whatever the
/// path is: the directory starts both, and it is the directory of both. In a path
/// that starts with a slash it is followed by one.
pub proof fn law_shutdown_is_a_sibling(path: Seq<char>)
    ensures
        ({
            let dir = parent(path);
            &&& dir.is_prefix_of(path)
            &&& parent(dir + "/shutdown/"@) == dir
            &&& path.len() > 0 && path[0] == '/' ==> dir.len() < path.len() && path[dir.len() as int]
                == '/'
        }),
{
    let trimmed = text::trim_end_by(path, Edge::Mark('/'));
    lemma_trimmed(path);
    let dir = parent(path);
    lemma_before_last(trimmed);
    let below = dir + "/shutdown/"@;
    reveal_strlit("/shutdown/");
    assert(below.last() == '/');
    let bare = below.drop_last();
    assert(bare.last() == 'n');
    assert(text::trim_end_by(below, Edge::Mark('/')) == bare) by {
        assert(text::trim_end_by(bare, Edge::Mark('/')) == bare);
    }
    let d1 = bare.drop_last();
    let d2 = d1.drop_last();
    let d3 = d2.drop_last();
    let d4 = d3.drop_last();
    let d5 = d4.drop_last();
    let d6 = d5.drop_last();
    let d7 = d6.drop_last();
    let d8 = d7.drop_last();
    assert(d8.last() == '/');
    assert(d8.drop_last() =~= dir);
    assert(before_last(d8, '/') == dir);
    assert(before_last(d7, '/') == dir);
    assert(before_last(d6, '/') == dir);
    assert(before_last(d5, '/') == dir);
    assert(before_last(d4, '/') == dir);
    assert(before_last(d3, '/') == dir);
    assert(before_last(d2, '/') == dir);
    assert(before_last(d1, '/') == dir);
    assert(before_last(bare, '/') == dir);
}

proof fn lemma_trimmed(path: Seq<char>)
    ensures
        text::trim_end_by(path, Edge::Mark('/')).is_prefix_of(path),
    decreases path.len(),
{
    if path.len() > 0 && path.last() == '/' {
        lemma_trimmed(path.drop_last());
    }
}

proof fn lemma_before_last(text: Seq<char>)
    ensures
        before_last(text, '/').is_prefix_of(text),
        text.len() > 0 && text[0] == '/' ==> before_last(text, '/').len() < text.len()
            && text[before_last(text, '/').len() as int] == '/',
    decreases text.len(),
{
    if text.len() > 0 && text.last() != '/' {
        lemma_before_last(text.drop_last());
    }
}

/// The two engines are called by their names, in small letters.
pub proof fn law_engines_have_names(engine: Engine, label: &'static str)
    requires
        call_ensures(Engine::label, (engine,), label),
    ensures
        engine is Httpsys ==> label@ == "httpsys"@,
        engine is Axum ==> label@ == "axum"@,
{
}

/// The shutdown path of a path is `shutdown/` in the place of its last part, with or
/// without a slash behind it, and at the root for a path of one part; the kernel is
/// asked for the port and the path.
pub proof fn law_where_to_ask_for_a_shutdown(
    dir: Seq<char>,
    last: Seq<char>,
    path: &str,
    slashed: &str,
    r: String,
    r_slashed: String,
    alone: &str,
    r_alone: String,
    port: u16,
    url: String,
)
    requires
        last.len() > 0,
        alone@ == last,
        call_ensures(shutdown_path, (alone,), r_alone),
        forall|i: int| 0 <= i < last.len() ==> #[trigger] last[i] != '/',
        path@ == dir + seq!['/'] + last,
        slashed@ == path@.push('/'),
        call_ensures(shutdown_path, (path,), r),
        call_ensures(shutdown_path, (slashed,), r_slashed),
        call_ensures(prefix_url, (port, path), url),
    ensures
        r@ == dir + "/shutdown/"@,
        r_slashed@ == r@,
        r_alone@ == "/shutdown/"@,
        url@ == "http://+:"@ + text::decimal(port as nat) + path@,
{
    assert(path@.last() == last.last());
    assert(last[last.len() - 1] != '/');
    assert(text::trim_end_by(path@, Edge::Mark('/')) == path@);
    assert(slashed@.drop_last() =~= path@);
    lemma_last_part(dir, last);
    assert(text::trim_end_by(last, Edge::Mark('/')) == last);
    lemma_one_part(last);
    assert(Seq::<char>::empty() + "/shutdown/"@ =~= "/shutdown/"@);
}

proof fn lemma_one_part(last: Seq<char>)
    requires
        forall|i: int| 0 <= i < last.len() ==> #[trigger] last[i] != '/',
    ensures
        before_last(last, '/') == Seq::<char>::empty(),
    decreases last.len(),
{
    if last.len() == 0 {
        assert(last =~= Seq::<char>::empty());
    } else {
        assert(last[last.len() - 1] != '/');
        lemma_one_part(last.drop_last());
    }
}

proof fn lemma_last_part(dir: Seq<char>, last: Seq<char>)
    requires
        forall|i: int| 0 <= i < last.len() ==> #[trigger] last[i] != '/',
    ensures
        before_last(dir + seq!['/'] + last, '/') == dir,
    decreases last.len(),
{
    let path = dir + seq!['/'] + last;
    if last.len() == 0 {
        assert(path.last() == '/');
        assert(path.drop_last() =~= dir);
    } else {
        assert(path.last() == last[last.len() - 1]);
        assert(path.drop_last() =~= dir + seq!['/'] + last.drop_last());
        lemma_last_part(dir, last.drop_last());
    }
}

/// A server is configured as the machine calls for, but for the size of its receive
/// buffers. It replies with a plain 200 that says OK, which the kernel may keep for
/// a minute if and only if it is told to.
pub proof fn law_how_a_server_under_test_is_set_up(
    options: ServeOptions,
    machine: ServerConfig,
    config: ServerConfig,
    reply: Response,
)
    requires
        call_ensures(ServeOptions::config, (&options, machine), config),
        call_ensures(ServeOptions::reply, (&options,), reply),
    ensures
        config.request_buffer_bytes == options.request_buffer_bytes,
        config.concurrency == machine.concurrency && config.io_threads == machine.io_threads,
        config.max_request_buffer_bytes == machine.max_request_buffer_bytes,
        config.queue_length == machine.queue_length,
        config.max_pooled_body_bytes == machine.max_pooled_body_bytes,
        config.shutdown_timeout_ns == machine.shutdown_timeout_ns,
        reply@.status == 200,
        reply@.content_type == Some("text/plain; charset=utf-8"@),
        reply@.body == utf8::encode_utf8("OK"@),
        reply@.headers.len() == 0,
        reply@.cache_seconds == if options.kernel_cache {
            Some(60u32)
        } else {
            None
        },
{
}

/// A refused prefix is named together with why it was refused. Where access was
/// denied, and only there, two ways out are named as well.
pub proof fn law_what_is_said_of_a_refused_prefix(
    error: Error,
    port: u16,
    path: &str,
    os_message: &str,
    r: String,
    url: String,
    reason: String,
)
    requires
        call_ensures(url_acl_hint, (&error, port, path, os_message), r),
        call_ensures(prefix_url, (port, path), url),
        call_ensures(Error::describe, (&error, os_message), reason),
    ensures
        error != Error::Win32(5) ==> r@ == "cannot reserve "@ + url@ + ": "@ + reason@,
        error == Error::Win32(5) ==> {
            let named = "cannot reserve "@ + url@ + " ("@ + reason@
                + ").\nEither run once as administrator:\n    netsh http add urlacl url=http://+:"@
                + text::decimal(port as nat) + "/"@;
            &&& r@ == named
                + " user=Everyone\nor reuse the reservation every user already has:\n    --port 80 --path /Temporary_Listen_Addresses/bench/"@
        },
{
    reveal_strlit(").\nEither run once as administrator:\n    netsh http add urlacl url=");
    reveal_strlit("http://+:");
    reveal_strlit(").\nEither run once as administrator:\n    netsh http add urlacl url=http://+:");
    assert(").\nEither run once as administrator:\n    netsh http add urlacl url="@ + "http://+:"@
        =~= ").\nEither run once as administrator:\n    netsh http add urlacl url=http://+:"@);
    if error == Error::Win32(5) {
        let head = "cannot reserve "@ + url@ + " ("@ + reason@;
        let way = ").\nEither run once as administrator:\n    netsh http add urlacl url="@;
        let number = text::decimal(port as nat);
        assert(head + way + ("http://+:"@ + number + "/"@) =~= head + (way + "http://+:"@) + number
            + "/"@);
    }
}

} // verus!
