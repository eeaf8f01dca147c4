//! The parsed [`Request`] and its [`Body`].
//!
//! The kernel's own structure is not exposed: a `Request` borrows the plain
//! values out of the receive buffer, and its accessors cook them.

use crate::buffer::{self, BodyPool, PooledVec};
use crate::error::Result;
use crate::text;
use std::borrow::Cow;
use std::convert::Infallible;
use std::str::FromStr;
use vstd::prelude::*;
use vstd::utf8;

verus! {

/// Largest `Content-Length` honoured when pre-sizing the body buffer. Beyond
/// this the body grows on demand instead, so a bogus header cannot make the
/// server allocate arbitrarily.
pub const MAX_BODY_RESERVE: u64 = 8388608;

/// Bytes requested per body read when a body did not arrive inline with the
/// headers.
pub const BODY_CHUNK_BYTES: usize = 262144;

/// The request flag that says the kernel holds more of the body.
pub const MORE_ENTITY_BODY_EXISTS: u32 = 1;

/// How many headers the kernel knows by number.
pub const KNOWN_HEADERS: usize = 41;

/// The kernel's number of the `Connection` header.
pub const HEADER_CONNECTION: usize = 1;

/// The kernel's number of the `Content-Length` header.
pub const HEADER_CONTENT_LENGTH: usize = 11;

/// The kernel's number of the `Content-Type` header.
pub const HEADER_CONTENT_TYPE: usize = 12;

/// The kernel's number of the `Host` header.
pub const HEADER_HOST: usize = 28;

/// The kernel's number of the `User-Agent` header.
pub const HEADER_USER_AGENT: usize = 40;

/// HTTP method as parsed by http.sys, falling back to [`Method::Other`] for
/// extension methods.
#[derive(Debug, Clone, PartialEq, Eq)]
pub enum Method {
    Get,
    Post,
    Put,
    Delete,
    Head,
    Options,
    Patch,
    Trace,
    Connect,
    Other(String),
}

/// A [`Method`] with the name of an extension method as its characters.
pub enum MethodView {
    Get,
    Post,
    Put,
    Delete,
    Head,
    Options,
    Patch,
    Trace,
    Connect,
    Other(Seq<char>),
}

impl View for Method {
    type V = MethodView;

    open spec fn view(&self) -> MethodView {
        match self {
            Method::Get => MethodView::Get,
            Method::Post => MethodView::Post,
            Method::Put => MethodView::Put,
            Method::Delete => MethodView::Delete,
            Method::Head => MethodView::Head,
            Method::Options => MethodView::Options,
            Method::Patch => MethodView::Patch,
            Method::Trace => MethodView::Trace,
            Method::Connect => MethodView::Connect,
            Method::Other(name) => MethodView::Other(name@),
        }
    }
}

/// The method that a name on the wire stands for.
pub open spec fn method_named(name: Seq<char>) -> MethodView {
    if name == "GET"@ {
        MethodView::Get
    } else if name == "POST"@ {
        MethodView::Post
    } else if name == "PUT"@ {
        MethodView::Put
    } else if name == "DELETE"@ {
        MethodView::Delete
    } else if name == "HEAD"@ {
        MethodView::Head
    } else if name == "OPTIONS"@ {
        MethodView::Options
    } else if name == "PATCH"@ {
        MethodView::Patch
    } else if name == "TRACE"@ {
        MethodView::Trace
    } else if name == "CONNECT"@ {
        MethodView::Connect
    } else {
        MethodView::Other(name)
    }
}

/// `n` in decimal notation, with a sign if it is negative.
pub open spec fn signed_decimal(n: int) -> Seq<char> {
    if n < 0 {
        "-"@ + text::decimal((-n) as nat)
    } else {
        text::decimal(n as nat)
    }
}

/// The method that the kernel's number for a verb stands for. Verbs that have
/// no method of their own keep the kernel's name for the number.
pub open spec fn method_numbered(verb: i32) -> MethodView {
    if verb == 3 {
        MethodView::Options
    } else if verb == 4 {
        MethodView::Get
    } else if verb == 5 {
        MethodView::Head
    } else if verb == 6 {
        MethodView::Post
    } else if verb == 7 {
        MethodView::Put
    } else if verb == 8 {
        MethodView::Delete
    } else if verb == 9 {
        MethodView::Trace
    } else if verb == 10 {
        MethodView::Connect
    } else {
        MethodView::Other("HTTP_VERB("@ + signed_decimal(verb as int) + ")"@)
    }
}

impl Method {
    /// The method that `name` stands for; every name stands for one.
    pub fn named(name: &str) -> (r: Self)
        ensures
            r@ == method_named(name@),
    {
        if text::same_text(name, "GET") {
            Method::Get
        } else if text::same_text(name, "POST") {
            Method::Post
        } else if text::same_text(name, "PUT") {
            Method::Put
        } else if text::same_text(name, "DELETE") {
            Method::Delete
        } else if text::same_text(name, "HEAD") {
            Method::Head
        } else if text::same_text(name, "OPTIONS") {
            Method::Options
        } else if text::same_text(name, "PATCH") {
            Method::Patch
        } else if text::same_text(name, "TRACE") {
            Method::Trace
        } else if text::same_text(name, "CONNECT") {
            Method::Connect
        } else {
            Method::Other(name.to_owned())
        }
    }

    /// The method that the kernel's number for a verb stands for.
    ///
    /// http.sys has no number for PATCH or the verbs it does not parse; those
    /// arrive by name.
    pub fn numbered(verb: i32) -> (r: Self)
        ensures
            r@ == method_numbered(verb),
    {
        match verb {
            3 => Method::Options,
            4 => Method::Get,
            5 => Method::Head,
            6 => Method::Post,
            7 => Method::Put,
            8 => Method::Delete,
            9 => Method::Trace,
            10 => Method::Connect,
            _ => {
                let mut name = "HTTP_VERB(".to_owned();
                let wide = verb as i64;
                if wide < 0 {
                    name.append("-");
                    text::push_decimal(&mut name, (-wide) as u64);
                } else {
                    text::push_decimal(&mut name, wide as u64);
                }
                name.append(")");
                assert(name@ =~= "HTTP_VERB("@ + signed_decimal(verb as int) + ")"@);
                Method::Other(name)
            },
        }
    }
}

impl FromStr for Method {
    type Err = Infallible;

    /// The method that `s` stands for; every name stands for one.
    fn from_str(s: &str) -> (r: core::result::Result<Self, Infallible>)
        ensures
            r is Ok,
            r->Ok_0@ == method_named(s@),
    {
        Ok(Method::named(s))
    }
}

/// A parsed HTTP request handed to a handler.
///
/// All accessors borrow out of the kernel-filled receive buffer, so reading
/// headers or an inline body costs nothing.
pub struct Request<'a> {
    /// Application-defined value registered with the URL prefix that matched.
    pub context: u64,
    /// The kernel's number for the request.
    pub id: u64,
    /// The kernel's number for the connection.
    pub connection: u64,
    /// The kernel's number for the verb.
    pub verb: i32,
    /// The name of a verb that the kernel has no number for, otherwise empty.
    pub unknown_verb: &'a [u8],
    /// The request target as sent on the wire.
    pub raw_url: &'a [u8],
    /// The kernel's flags.
    pub flags: u32,
    /// The part of the body that arrived with the headers.
    pub inline: &'a [u8],
    /// The values of the known headers by number, empty where absent.
    pub known_headers: Vec<&'a [u8]>,
}

/// A header value as text: nothing if it is absent or not UTF-8.
pub open spec fn header_text(value: Seq<u8>) -> Option<Seq<char>> {
    if value.len() > 0 && utf8::valid_utf8(value) {
        Some(utf8::decode_utf8(value))
    } else {
        None
    }
}

/// The characters of a header value that may be absent.
pub open spec fn opt_chars(value: Option<&str>) -> Option<Seq<char>> {
    match value {
        Some(s) => Some(s@),
        None => None,
    }
}

impl<'a> Request<'a> {
    /// Every known header has an entry, and the inline part is no longer than
    /// the kernel can say.
    pub open spec fn wf(&self) -> bool {
        &&& self.known_headers@.len() == KNOWN_HEADERS
        &&& self.inline@.len() <= u32::MAX
    }

    /// The declared body length, if the header holds a number.
    pub open spec fn spec_content_length(&self) -> Option<nat> {
        match header_text(self.known_headers@[HEADER_CONTENT_LENGTH as int]@) {
            Some(s) => text::parsed_number(s, u64::MAX as nat),
            None => None,
        }
    }

    /// Whether the kernel holds more of the body.
    pub open spec fn more_body(&self) -> bool {
        self.flags % 2 == 1
    }

    /// The room to start reading a streamed body with: the declared length,
    /// within reason, if it is longer than what has arrived, and otherwise one
    /// chunk more than what has arrived.
    pub open spec fn initial_room(&self) -> nat {
        let declared = match self.spec_content_length() {
            Some(n) if n < MAX_BODY_RESERVE => n,
            Some(n) => MAX_BODY_RESERVE as nat,
            None => 0,
        };
        if declared > self.inline@.len() {
            declared
        } else {
            self.inline@.len() + BODY_CHUNK_BYTES as nat
        }
    }

    /// Application-defined value registered with the URL prefix that matched
    /// this request.
    pub fn url_context(&self) -> (r: u64)
        ensures
            r == self.context,
    {
        self.context
    }

    /// Kernel request identifier.
    pub fn request_id(&self) -> (r: u64)
        ensures
            r == self.id,
    {
        self.id
    }

    /// Identifier of the connection this request arrived on. Stable across
    /// keep-alive requests.
    pub fn connection_id(&self) -> (r: u64)
        ensures
            r == self.connection,
    {
        self.connection
    }

    /// HTTP method.
    pub fn method(&self) -> (r: Method)
        ensures
            r@ == if self.unknown_verb@.len() > 0 {
                method_named(text::lossy_text(self.unknown_verb@))
            } else {
                method_numbered(self.verb)
            },
            self.unknown_verb@.len() > 0 && utf8::valid_utf8(self.unknown_verb@) ==> r@
                == method_named(utf8::decode_utf8(self.unknown_verb@)),
    {
        if self.unknown_verb.len() > 0 {
            match &text::lossy_utf8_text(self.unknown_verb) {
                Cow::Borrowed(name) => Method::named(name),
                Cow::Owned(name) => Method::named(name.as_str()),
            }
        } else {
            Method::numbered(self.verb)
        }
    }

    /// Raw request target as sent on the wire (path plus query string).
    pub fn url(&self) -> (r: Cow<'_, str>)
        ensures
            self.raw_url@.len() == 0 ==> r@ == Seq::<char>::empty(),
            self.raw_url@.len() > 0 ==> r@ == text::lossy_text(self.raw_url@),
            utf8::valid_utf8(self.raw_url@) ==> r@ == utf8::decode_utf8(self.raw_url@),
    {
        if self.raw_url.len() == 0 {
            proof {
                reveal_strlit("");
                assert(""@ =~= Seq::<char>::empty());
            }
            return Cow::Borrowed("");
        }
        text::lossy_utf8_text(self.raw_url)
    }

    /// `true` if more body data is waiting in the kernel beyond
    /// [`Request::inline_body`].
    pub fn has_more_body(&self) -> (r: bool)
        ensures
            r == self.more_body(),
    {
        let flags = self.flags;
        assert((flags & 1 != 0) == (flags % 2 == 1)) by (bit_vector);
        self.flags & MORE_ENTITY_BODY_EXISTS != 0
    }

    /// The part of the body http.sys copied in alongside the headers.
    ///
    /// For the overwhelming majority of requests this is the whole body, and
    /// reading it costs no call at all.
    pub fn inline_body(&self) -> (r: &'a [u8])
        ensures
            r@ == self.inline@,
    {
        self.inline
    }

    /// The value of the known header number `id`.
    fn known_header(&self, id: usize) -> (r: Option<&'a str>)
        requires
            id < self.known_headers@.len(),
        ensures
            opt_chars(r) == header_text(self.known_headers@[id as int]@),
    {
        let value: &'a [u8] = self.known_headers[id];
        if value.len() == 0 {
            return None;
        }
        text::utf8_text(value)
    }

    /// The `Host` header.
    pub fn host(&self) -> (r: Option<&'a str>)
        requires
            self.wf(),
        ensures
            opt_chars(r) == header_text(self.known_headers@[HEADER_HOST as int]@),
    {
        self.known_header(HEADER_HOST)
    }

    /// The `User-Agent` header.
    pub fn user_agent(&self) -> (r: Option<&'a str>)
        requires
            self.wf(),
        ensures
            opt_chars(r) == header_text(self.known_headers@[HEADER_USER_AGENT as int]@),
    {
        self.known_header(HEADER_USER_AGENT)
    }

    /// The `Content-Type` header.
    pub fn content_type(&self) -> (r: Option<&'a str>)
        requires
            self.wf(),
        ensures
            opt_chars(r) == header_text(self.known_headers@[HEADER_CONTENT_TYPE as int]@),
    {
        self.known_header(HEADER_CONTENT_TYPE)
    }

    /// The `Content-Length` header as a number.
    pub fn content_length(&self) -> (r: Option<u64>)
        requires
            self.wf(),
        ensures
            match r {
                Some(n) => self.spec_content_length() == Some(n as nat),
                None => self.spec_content_length() is None,
            },
    {
        match self.known_header(HEADER_CONTENT_LENGTH) {
            Some(s) => text::parse_number(s, u64::MAX),
            None => None,
        }
    }

    /// The `Connection` header.
    pub fn connection(&self) -> (r: Option<&'a str>)
        requires
            self.wf(),
        ensures
            opt_chars(r) == header_text(self.known_headers@[HEADER_CONNECTION as int]@),
    {
        self.known_header(HEADER_CONNECTION)
    }

    /// Start reading the whole request body.
    ///
    /// When the body arrived inline with the headers, which is the common case,
    /// this borrows straight out of the receive buffer: no call, no copy, no
    /// allocation. Otherwise it takes a buffer out of `bodies`, sized from
    /// `Content-Length` up front, and the rest of the body is still to be read:
    /// growing the buffer inside the read loop would mean copying everything
    /// received so far on every chunk, which turns a large upload quadratic.
    pub fn body(&self, bodies: &mut BodyPool) -> (r: BodyStart<'a>)
        requires
            self.wf(),
            old(bodies)@.wf(),
            self.initial_room() <= isize::MAX,
        ensures
            final(bodies)@.wf(),
            match r {
                BodyStart::Inline(body) => {
                    &&& !self.more_body()
                    &&& body.wf()
                    &&& body.spec_is_inline()
                    &&& body@ == self.inline@
                    &&& final(bodies)@ == old(bodies)@
                },
                BodyStart::Streamed(read) => {
                    &&& self.more_body()
                    &&& read.wf()
                    &&& read.inline() == self.inline@
                    &&& read.chunks() == Seq::<Seq<u8>>::empty()
                    &&& read.room() == old(bodies)@.next_room(self.initial_room())
                    &&& final(bodies)@ == old(bodies)@.taken()
                },
            },
    {
        let inline = self.inline_body();
        if !self.has_more_body() {
            return BodyStart::Inline(Body { inline, owned: None });
        }
        let declared: u64 = match self.content_length() {
            Some(n) => if n < MAX_BODY_RESERVE {
                n
            } else {
                MAX_BODY_RESERVE
            },
            None => 0,
        };
        let capacity: usize = if declared > inline.len() as u64 {
            declared as usize
        } else {
            // No usable Content-Length: start with one chunk and grow.
            inline.len() + BODY_CHUNK_BYTES
        };
        let mut body = bodies.take(capacity);
        body.extend_from_slice(inline);
        assert(body@ =~= inline@);
        BodyStart::Streamed(BodyRead { inline, body, chunks: Ghost(Seq::empty()) })
    }
}

/// `inline`, then the bytes of each read in order.
pub open spec fn received(inline: Seq<u8>, chunks: Seq<Seq<u8>>) -> Seq<u8>
    decreases chunks.len(),
{
    if chunks.len() == 0 {
        inline
    } else {
        received(inline, chunks.drop_last()) + chunks.last()
    }
}

/// Where reading a body stands at the start.
pub enum BodyStart<'a> {
    /// The whole body has arrived.
    Inline(Body<'a>),
    /// The rest of the body is to be read.
    Streamed(BodyRead<'a>),
}

/// A body that is being read out of the kernel, straight into its buffer so
/// that the bytes are never copied twice.
pub struct BodyRead<'a> {
    inline: &'a [u8],
    body: PooledVec,
    chunks: Ghost<Seq<Seq<u8>>>,
}

impl<'a> BodyRead<'a> {
    /// What has been received is the inline part and then every read in order.
    pub closed spec fn wf(&self) -> bool {
        &&& self.body.wf()
        &&& self.body@ == received(self.inline@, self.chunks@)
    }

    /// The part of the body that arrived with the headers.
    pub closed spec fn inline(&self) -> Seq<u8> {
        self.inline@
    }

    /// The bytes of each read so far, in order.
    pub closed spec fn chunks(&self) -> Seq<Seq<u8>> {
        self.chunks@
    }

    /// What lies in the room for the next read.
    pub closed spec fn spare(&self) -> Seq<u8> {
        self.body.spare()
    }

    /// How many bytes the buffer has room for in all.
    pub closed spec fn room(&self) -> nat {
        self.body.room()
    }

    /// How many bytes have been received.
    pub open spec fn len(&self) -> nat {
        received(self.inline(), self.chunks()).len()
    }

    /// The room for the next read, never empty: a full buffer grows by one
    /// chunk.
    pub fn spare_mut(&mut self) -> (r: &mut [u8])
        requires
            old(self).wf(),
            old(self).len() + BODY_CHUNK_BYTES <= isize::MAX,
        ensures
            r@.len() > 0,
            r@.len() == if old(self).spare().len() == 0 {
                (buffer::grown_room(old(self).len(), old(self).len() + BODY_CHUNK_BYTES as nat)
                    - old(self).len()) as nat
            } else {
                old(self).spare().len()
            },
            final(self).wf(),
            final(self).inline() == old(self).inline(),
            final(self).chunks() == old(self).chunks(),
            final(self).spare() == final(r)@,
            final(self).room() == old(self).len() + final(r)@.len(),
    {
        if self.body.len() == self.body.capacity() {
            self.body.reserve(BODY_CHUNK_BYTES);
        }
        self.body.spare_mut()
    }

    /// Take in what a read returned: so many bytes at the start of the room, or
    /// `None` at end of body. Returns whether the body is complete.
    pub fn read(&mut self, count: Option<usize>) -> (done: bool)
        requires
            old(self).wf(),
            count is Some ==> count->Some_0 <= old(self).spare().len(),
        ensures
            done == (count is None || count->Some_0 == 0),
            final(self).wf(),
            final(self).inline() == old(self).inline(),
            final(self).chunks() == if done {
                old(self).chunks()
            } else {
                old(self).chunks().push(old(self).spare().take(count->Some_0 as int))
            },
            final(self).spare() == if done {
                old(self).spare()
            } else {
                old(self).spare().skip(count->Some_0 as int)
            },
            final(self).room() == old(self).room(),
    {
        match count {
            None => true,
            Some(n) => {
                if n == 0 {
                    return true;
                }
                let ghost chunk = self.body.spare().take(n as int);
                let ghost before = self.chunks@;
                self.body.advance(n);
                self.chunks = Ghost(self.chunks@.push(chunk));
                assert(self.chunks@.drop_last() =~= before);
                false
            },
        }
    }

    /// The body that has been read: the inline part, then the bytes of each
    /// read in order.
    pub fn finish(self) -> (r: Body<'a>)
        requires
            self.wf(),
        ensures
            r.wf(),
            !r.spec_is_inline(),
            r@ == received(self.inline(), self.chunks()),
            r.room() == self.room(),
    {
        Body { inline: self.inline, owned: Some(self.body) }
    }

    /// The buffer of a body that could not be read to its end.
    pub fn abandon(self) -> (r: PooledVec)
        requires
            self.wf(),
        ensures
            r.wf(),
            r@ == received(self.inline(), self.chunks()),
            r.room() == self.room(),
    {
        self.body
    }
}

/// The body of a [`Request`], borrowed from the receive buffer when it fits
/// there and held in a pooled buffer otherwise.
pub struct Body<'a> {
    inline: &'a [u8],
    owned: Option<PooledVec>,
}

impl<'a> View for Body<'a> {
    type V = Seq<u8>;

    /// The bytes of the body.
    closed spec fn view(&self) -> Seq<u8> {
        match self.owned {
            Some(owned) => owned@,
            None => self.inline@,
        }
    }
}

impl<'a> Body<'a> {
    /// The buffer, if there is one, is well formed.
    pub closed spec fn wf(&self) -> bool {
        match self.owned {
            Some(owned) => owned.wf(),
            None => true,
        }
    }

    /// The body was not copied.
    pub closed spec fn spec_is_inline(&self) -> bool {
        self.owned is None
    }

    /// How many bytes the buffer has room for, none without a buffer.
    pub closed spec fn room(&self) -> nat {
        match self.owned {
            Some(owned) => owned.room(),
            None => 0,
        }
    }

    /// `true` if the body was read without any call or copy.
    pub fn is_inline(&self) -> (r: bool)
        ensures
            r == self.spec_is_inline(),
    {
        self.owned.is_none()
    }

    /// The bytes of the body.
    pub fn as_slice(&self) -> (r: &[u8])
        requires
            self.wf(),
        ensures
            r@ == self@,
    {
        match &self.owned {
            Some(owned) => owned.as_slice(),
            None => self.inline,
        }
    }

    /// The pooled buffer that holds the body, to be given back.
    pub fn into_buffer(self) -> (r: Option<PooledVec>)
        requires
            self.wf(),
        ensures
            r is None <==> self.spec_is_inline(),
            r is Some ==> r->Some_0.wf() && r->Some_0@ == self@ && r->Some_0.room() == self.room(),
    {
        self.owned
    }
}

/// Every name that a method has on the wire is parsed as that method, and every
/// other name is kept as it is.
pub proof fn law_method_names()
    ensures
        method_named("GET"@) == MethodView::Get,
        method_named("POST"@) == MethodView::Post,
        method_named("PUT"@) == MethodView::Put,
        method_named("DELETE"@) == MethodView::Delete,
        method_named("HEAD"@) == MethodView::Head,
        method_named("OPTIONS"@) == MethodView::Options,
        method_named("PATCH"@) == MethodView::Patch,
        method_named("TRACE"@) == MethodView::Trace,
        method_named("CONNECT"@) == MethodView::Connect,
        forall|name: Seq<char>| #[trigger]
            method_named(name) matches MethodView::Other(kept) ==> kept == name,
{
    reveal_strlit("GET");
    reveal_strlit("POST");
    reveal_strlit("PUT");
    reveal_strlit("DELETE");
    reveal_strlit("HEAD");
    reveal_strlit("OPTIONS");
    reveal_strlit("PATCH");
    reveal_strlit("TRACE");
    reveal_strlit("CONNECT");
    assert("GET"@.len() == 3 && "PUT"@.len() == 3);
    assert("POST"@.len() == 4 && "HEAD"@.len() == 4);
    assert("PATCH"@.len() == 5 && "TRACE"@.len() == 5);
    assert("DELETE"@.len() == 6);
    assert("OPTIONS"@.len() == 7 && "CONNECT"@.len() == 7);
    assert("POST"@[0] != "HEAD"@[0]);
    assert("GET"@[0] != "PUT"@[0]);
    assert("PATCH"@[0] != "TRACE"@[0]);
    assert("OPTIONS"@[0] != "CONNECT"@[0]);
}

/// A verb that the kernel knows by number is the method that its name stands
/// for.
pub proof fn law_numbers_and_names_agree()
    ensures
        method_numbered(3) == method_named("OPTIONS"@),
        method_numbered(4) == method_named("GET"@),
        method_numbered(5) == method_named("HEAD"@),
        method_numbered(6) == method_named("POST"@),
        method_numbered(7) == method_named("PUT"@),
        method_numbered(8) == method_named("DELETE"@),
        method_numbered(9) == method_named("TRACE"@),
        method_numbered(10) == method_named("CONNECT"@),
{
    law_method_names();
}

/// A body is the inline part followed by everything that was read, in the order
/// it was read.
pub proof fn law_body_arrives_in_order(inline: Seq<u8>, chunks: Seq<Seq<u8>>, chunk: Seq<u8>)
    ensures
        received(inline, Seq::<Seq<u8>>::empty()) == inline,
        received(inline, chunks.push(chunk)) == received(inline, chunks) + chunk,
        inline.is_prefix_of(received(inline, chunks)),
    decreases chunks.len(),
{
    assert(chunks.push(chunk).drop_last() =~= chunks);
    if chunks.len() > 0 {
        law_body_arrives_in_order(inline, chunks.drop_last(), chunks.last());
    }
}

/// Whether more of a body is to be read depends on one bit of the kernel's flags
/// and on nothing else: whatever the verb, the headers and the inline part are,
/// the body is complete without that bit and is read on with it.
pub proof fn law_the_flag_decides_whether_to_read_on<'a>(
    request: Request<'a>,
    more: bool,
    bodies: &mut BodyPool,
    start: BodyStart<'a>,
)
    requires
        call_ensures(Request::<'a>::has_more_body, (&request,), more),
        call_ensures(Request::<'a>::body, (&request, bodies), start),
    ensures
        more <==> request.flags & 1 != 0,
        start is Streamed <==> request.flags & 1 != 0,
        start is Inline <==> request.flags & 1 == 0,
{
    let flags = request.flags;
    assert((flags & 1 != 0) == (flags % 2 == 1)) by (bit_vector);
}

/// A body that is complete is the inline part and costs no buffer. One that is
/// read on starts with the inline part, in a buffer with room for what is declared,
/// within eight megabytes, if that is more than has arrived, and otherwise with room
/// for 256 kilobytes more than has arrived.
pub proof fn law_a_body_starts_with_the_inline_part<'a>(
    request: Request<'a>,
    bodies: &mut BodyPool,
    start: BodyStart<'a>,
    n: nat,
)
    requires
        call_ensures(Request::<'a>::body, (&request, bodies), start),
        n <= u64::MAX,
    ensures
        start matches BodyStart::Inline(body) ==> body@ == request.inline@ && body.spec_is_inline()
            && final(bodies)@ == old(bodies)@,
        start matches BodyStart::Streamed(read) ==> {
            let declared = request.known_headers@[11]@;
            let within = if n < 8388608 {
                n
            } else {
                8388608
            };
            &&& read.inline() == request.inline@
            &&& read.chunks().len() == 0
            &&& read.len() == request.inline@.len()
            &&& declared.len() == 0 ==> read.room() >= request.inline@.len() + 262144
            &&& declared == utf8::encode_utf8(text::decimal(n)) && within > request.inline@.len()
                ==> read.room() >= within
            &&& declared == utf8::encode_utf8(text::decimal(n)) && within <= request.inline@.len()
                ==> read.room() >= request.inline@.len() + 262144
            &&& old(bodies)@.free.len() == 0 && declared == utf8::encode_utf8(text::decimal(n))
                && within > request.inline@.len() ==> read.room() == within
            &&& old(bodies)@.free.len() == 0 && declared.len() == 0 ==> read.room()
                == request.inline@.len() + 262144
            &&& old(bodies)@.free.len() == 0 ==> final(bodies)@.free.len() == 0
            &&& old(bodies)@.free.len() > 0 ==> final(bodies)@.free == old(
                bodies,
            )@.free.drop_first()
        },
{
    text::law_texts_survive_encoding(text::decimal(n));
    text::law_decimal_reads_back(n, u64::MAX as nat);
}

/// A read that brought bytes adds just those behind what has been received, and
/// the body is complete with the first read that brought none.
pub proof fn law_reads_add_what_they_bring<'a>(
    read: &mut BodyRead<'a>,
    count: Option<usize>,
    done: bool,
)
    requires
        call_ensures(BodyRead::<'a>::read, (read, count), done),
        count matches Some(n) ==> n <= old(read).spare().len(),
    ensures
        done <==> (count is None || count == Some(0usize)),
        ({
            let before = received(old(read).inline(), old(read).chunks());
            let after = received(final(read).inline(), final(read).chunks());
            &&& done ==> after == before
            &&& !done ==> after == before + old(read).spare().take(count->Some_0 as int)
        }),
        final(read).room() == old(read).room(),
{
    if !done {
        law_body_arrives_in_order(
            old(read).inline(),
            old(read).chunks(),
            old(read).spare().take(count->Some_0 as int),
        );
    }
}

/// There is always room for the next read, and making it changes nothing of what
/// has been received.
pub proof fn law_there_is_room_for_the_next_read<'a>(read: &mut BodyRead<'a>, spare: &mut [u8])
    requires
        call_ensures(BodyRead::<'a>::spare_mut, (read,), spare),
    ensures
        old(spare)@.len() > 0,
        old(read).spare().len() > 0 ==> old(spare)@.len() == old(read).spare().len(),
        old(read).spare().len() == 0 ==> old(spare)@.len() >= 262144,
        final(read).inline() == old(read).inline(),
        final(read).chunks() == old(read).chunks(),
        final(read).spare() == final(spare)@,
{
}

/// The body that comes of reading is what was received, and it is what its slice
/// and its buffer show, and what is left of it when reading is given up.
pub proof fn law_a_body_is_what_was_received<'a>(
    read: BodyRead<'a>,
    body: Body<'a>,
    slice: &[u8],
    is_inline: bool,
    kept: Option<PooledVec>,
    abandoned: PooledVec,
)
    requires
        call_ensures(BodyRead::<'a>::finish, (read,), body),
        call_ensures(Body::<'a>::as_slice, (&body,), slice),
        call_ensures(Body::<'a>::is_inline, (&body,), is_inline),
        call_ensures(Body::<'a>::into_buffer, (body,), kept),
        call_ensures(BodyRead::<'a>::abandon, (read,), abandoned),
    ensures
        slice@ == received(read.inline(), read.chunks()),
        !is_inline,
        kept matches Some(buffer) && buffer@ == slice@ && buffer.room() == read.room(),
        abandoned@ == slice@,
        abandoned.room() == read.room(),
{
}

/// A body that needed no reading is shown as it arrived, and holds no buffer.
pub proof fn law_an_inline_body_is_not_copied<'a>(
    request: Request<'a>,
    bodies: &mut BodyPool,
    body: Body<'a>,
    slice: &[u8],
    is_inline: bool,
    kept: Option<PooledVec>,
)
    requires
        call_ensures(Request::<'a>::body, (&request, bodies), BodyStart::Inline(body)),
        call_ensures(Body::<'a>::as_slice, (&body,), slice),
        call_ensures(Body::<'a>::is_inline, (&body,), is_inline),
        call_ensures(Body::<'a>::into_buffer, (body,), kept),
    ensures
        slice@ == request.inline@,
        is_inline,
        kept is None,
{
}

/// A header that the kernel found is shown as its text, each under its own number;
/// one that it did not find, or that is not UTF-8, is not shown.
pub proof fn law_headers_are_shown_as_sent<'a>(
    request: Request<'a>,
    text: Seq<char>,
    connection: Option<&'a str>,
    content_type: Option<&'a str>,
    host: Option<&'a str>,
    user_agent: Option<&'a str>,
)
    requires
        text.len() > 0,
        call_ensures(Request::<'a>::connection, (&request,), connection),
        call_ensures(Request::<'a>::content_type, (&request,), content_type),
        call_ensures(Request::<'a>::host, (&request,), host),
        call_ensures(Request::<'a>::user_agent, (&request,), user_agent),
    ensures
        shown_as(request.known_headers@[1]@, text, connection),
        shown_as(request.known_headers@[12]@, text, content_type),
        shown_as(request.known_headers@[28]@, text, host),
        shown_as(request.known_headers@[40]@, text, user_agent),
{
    text::law_texts_survive_encoding(text);
}

/// Whether `shown` is right for a header of these bytes, as far as `text` tells.
pub open spec fn shown_as(value: Seq<u8>, text: Seq<char>, shown: Option<&str>) -> bool {
    &&& value == utf8::encode_utf8(text) ==> (shown matches Some(s) && s@ == text)
    &&& value.len() == 0 || !utf8::valid_utf8(value) ==> shown is None
}

/// A length that a request declares in decimal is that number, whatever else it
/// says; without the header, or with one that is no number, there is none.
pub proof fn law_a_declared_length_is_read<'a>(request: Request<'a>, n: nat, r: Option<u64>)
    requires
        n <= u64::MAX,
        call_ensures(Request::<'a>::content_length, (&request,), r),
    ensures
        request.known_headers@[11]@ == utf8::encode_utf8(text::decimal(n)) ==> (r matches Some(m)
            && m == n),
        request.known_headers@[11]@.len() == 0 ==> r is None,
        !utf8::valid_utf8(request.known_headers@[11]@) ==> r is None,
        utf8::valid_utf8(request.known_headers@[11]@) && text::parsed_number(
            utf8::decode_utf8(request.known_headers@[11]@),
            u64::MAX as nat,
        ) is None ==> r is None,
{
    text::law_texts_survive_encoding(text::decimal(n));
    text::law_decimal_reads_back(n, u64::MAX as nat);
}

/// What the kernel tells of a request is handed on as it is: its numbers, the
/// inline part of its body, and its target.
pub proof fn law_a_request_shows_what_the_kernel_told<'a>(
    request: Request<'a>,
    target: Seq<char>,
    context: u64,
    id: u64,
    connection: u64,
    inline: &'a [u8],
    url: Cow<'_, str>,
)
    requires
        call_ensures(Request::<'a>::url_context, (&request,), context),
        call_ensures(Request::<'a>::request_id, (&request,), id),
        call_ensures(Request::<'a>::connection_id, (&request,), connection),
        call_ensures(Request::<'a>::inline_body, (&request,), inline),
        call_ensures(Request::<'a>::url, (&request,), url),
    ensures
        context == request.context,
        id == request.id,
        connection == request.connection,
        inline@ == request.inline@,
        request.raw_url@ == utf8::encode_utf8(target) ==> url@ == target,
        request.raw_url@.len() > 0 ==> url@ == text::lossy_text(request.raw_url@),
{
    text::law_texts_survive_encoding(target);
}

/// A method that the kernel has no number for goes by its name, whatever the
/// number says. A name that is none of the nine is kept as it is, to the letter,
/// and so no other name is taken for one of the nine.
pub proof fn law_methods_go_by_their_names<'a>(
    request: Request<'a>,
    name: Seq<char>,
    method: Method,
)
    requires
        name.len() > 0,
        request.unknown_verb@ == utf8::encode_utf8(name),
        call_ensures(Request::<'a>::method, (&request,), method),
    ensures
        method@ is Get <==> name == "GET"@,
        method@ is Post <==> name == "POST"@,
        method@ is Put <==> name == "PUT"@,
        method@ is Delete <==> name == "DELETE"@,
        method@ is Head <==> name == "HEAD"@,
        method@ is Options <==> name == "OPTIONS"@,
        method@ is Patch <==> name == "PATCH"@,
        method@ is Trace <==> name == "TRACE"@,
        method@ is Connect <==> name == "CONNECT"@,
        method matches Method::Other(kept) ==> kept@ == name,
{
    text::law_texts_survive_encoding(name);
    law_method_names();
}

/// Without a name a method goes by the kernel's number, and a number without a
/// method of its own is spelled out.
pub proof fn law_methods_go_by_their_numbers<'a>(request: Request<'a>, method: Method)
    requires
        request.unknown_verb@.len() == 0,
        call_ensures(Request::<'a>::method, (&request,), method),
    ensures
        method is Options <==> request.verb == 3,
        method is Get <==> request.verb == 4,
        method is Head <==> request.verb == 5,
        method is Post <==> request.verb == 6,
        method is Put <==> request.verb == 7,
        method is Delete <==> request.verb == 8,
        method is Trace <==> request.verb == 9,
        method is Connect <==> request.verb == 10,
        method !is Patch,
        method matches Method::Other(name) ==> name@ == "HTTP_VERB("@ + if request.verb < 0 {
            "-"@ + text::decimal((-request.verb) as nat)
        } else {
            text::decimal(request.verb as nat)
        } + ")"@,
{
}

/// Every text can be taken for a method, and it is taken as a request's would be.
pub proof fn law_every_text_is_a_method(text: &str, named: Method)
    requires
        call_ensures(Method::named, (text,), named),
    ensures
        named@ is Get <==> text@ == "GET"@,
        named@ is Post <==> text@ == "POST"@,
        named@ is Put <==> text@ == "PUT"@,
        named@ is Delete <==> text@ == "DELETE"@,
        named@ is Head <==> text@ == "HEAD"@,
        named@ is Options <==> text@ == "OPTIONS"@,
        named@ is Patch <==> text@ == "PATCH"@,
        named@ is Trace <==> text@ == "TRACE"@,
        named@ is Connect <==> text@ == "CONNECT"@,
        named matches Method::Other(kept) ==> kept@ == text@,
{
    law_method_names();
}

/// A name that is not UTF-8 is decoded as far as it goes, and what comes out is the
/// method's name.
pub proof fn law_method_names_are_decoded<'a>(
    request: Request<'a>,
    method: Method,
    name: &str,
    named: Method,
)
    requires
        request.unknown_verb@.len() > 0,
        name@ == text::lossy_text(request.unknown_verb@),
        call_ensures(Request::<'a>::method, (&request,), method),
        call_ensures(Method::named, (name,), named),
    ensures
        method@ == named@,
{
}

/// A method made of a number is the one that a request with that number and no name
/// has.
pub proof fn law_a_number_is_a_method<'a>(
    request: Request<'a>,
    method: Method,
    numbered: Method,
)
    requires
        request.unknown_verb@.len() == 0,
        call_ensures(Request::<'a>::method, (&request,), method),
        call_ensures(Method::numbered, (request.verb,), numbered),
    ensures
        numbered@ == method@,
{
}

} // verus!
