//! Builder-style [`Response`] type, and what the kernel is told of one.

use crate::content;
use crate::status;
use bytes::Bytes;
use std::borrow::Cow;
use vstd::prelude::*;
use vstd::utf8;

verus! {

/// An HTTP response.
///
/// This is plain data: nothing is pinned and nothing points at anything else.
#[derive(Debug, Clone)]
pub struct Response {
    status: u16,
    reason: &'static str,
    content_type: Option<&'static str>,
    headers: Vec<(&'static str, Cow<'static, str>)>,
    body: Bytes,
    cache_seconds: Option<u32>,
}

/// What a [`Response`] says.
#[verifier::ext_equal]
pub struct ResponseView {
    pub status: u16,
    pub reason: Seq<char>,
    pub content_type: Option<Seq<char>>,
    /// Names and values of the further headers, in the order they were added.
    pub headers: Seq<(Seq<char>, Seq<char>)>,
    pub body: Seq<u8>,
    /// How long the kernel may answer with this response by itself.
    pub cache_seconds: Option<u32>,
}

impl ResponseView {
    /// The response to start from: a status, its words, and nothing else.
    pub open spec fn bare(status: u16) -> ResponseView {
        ResponseView {
            status,
            reason: status::phrase(status),
            content_type: None,
            headers: Seq::empty(),
            body: Seq::empty(),
            cache_seconds: None,
        }
    }

    /// The response with another body.
    pub open spec fn body(self, body: Seq<u8>) -> ResponseView {
        ResponseView { body, ..self }
    }

    /// The response with another content type.
    pub open spec fn content_type(self, content_type: Seq<char>) -> ResponseView {
        ResponseView { content_type: Some(content_type), ..self }
    }

    /// The response with one more header.
    pub open spec fn header(self, name: Seq<char>, value: Seq<char>) -> ResponseView {
        ResponseView { headers: self.headers.push((name, value)), ..self }
    }

    /// The response with a life in the kernel's cache.
    pub open spec fn cached(self, seconds: u32) -> ResponseView {
        ResponseView { cache_seconds: Some(seconds), ..self }
    }
}

/// The names and values of headers, as characters.
pub open spec fn header_views(headers: Seq<(&'static str, Cow<'static, str>)>) -> Seq<
    (Seq<char>, Seq<char>),
> {
    headers.map_values(|h: (&'static str, Cow<'static, str>)| (h.0@, h.1@))
}

impl View for Response {
    type V = ResponseView;

    closed spec fn view(&self) -> ResponseView {
        ResponseView {
            status: self.status,
            reason: self.reason@,
            content_type: match self.content_type {
                Some(s) => Some(s@),
                None => None,
            },
            headers: header_views(self.headers@),
            body: content::bytes_of(self.body),
            cache_seconds: self.cache_seconds,
        }
    }
}

impl Default for Response {
    /// An empty `200 OK`.
    fn default() -> (r: Self)
        ensures
            r@ == ResponseView::bare(status::OK),
    {
        Response::new(status::OK)
    }
}

impl Response {
    /// New response with the given status code and an empty body.
    pub fn new(status: u16) -> (r: Self)
        ensures
            r@ == ResponseView::bare(status),
    {
        let r = Response {
            status,
            reason: status::reason_phrase(status),
            content_type: None,
            headers: Vec::new(),
            body: content::empty(),
            cache_seconds: None,
        };
        assert(r@ =~= ResponseView::bare(status));
        r
    }

    /// 200 OK with an `application/json` body.
    pub fn ok_json<B: Into<Bytes>>(body: B) -> (r: Self)
        ensures
            exists|b: Bytes| #[trigger]
                call_ensures(<B as Into<Bytes>>::into, (body,), b) && r@ == ResponseView::bare(
                    status::OK,
                ).content_type("application/json"@).body(content::bytes_of(b)),
    {
        Response::new(status::OK).with_content_type("application/json").with_body(body)
    }

    /// 200 OK with a `text/plain; charset=utf-8` body.
    pub fn ok_text<B: Into<Bytes>>(body: B) -> (r: Self)
        ensures
            exists|b: Bytes| #[trigger]
                call_ensures(<B as Into<Bytes>>::into, (body,), b) && r@ == ResponseView::bare(
                    status::OK,
                ).content_type("text/plain; charset=utf-8"@).body(content::bytes_of(b)),
    {
        Response::new(status::OK).with_content_type("text/plain; charset=utf-8").with_body(body)
    }

    /// Set the body. `&'static [u8]`, `&'static str` and `Bytes` are all
    /// taken without copying.
    #[must_use]
    pub fn with_body<B: Into<Bytes>>(self, body: B) -> (r: Self)
        ensures
            exists|b: Bytes| #[trigger]
                call_ensures(<B as Into<Bytes>>::into, (body,), b) && r@ == self@.body(
                    content::bytes_of(b),
                ),
    {
        let b: Bytes = body.into();
        let r = Response { body: b, ..self };
        assert(r@ == self@.body(content::bytes_of(b)));
        r
    }

    /// Set the `Content-Type` header.
    #[must_use]
    pub fn with_content_type(self, content_type: &'static str) -> (r: Self)
        ensures
            r@ == self@.content_type(content_type@),
    {
        Response { content_type: Some(content_type), ..self }
    }

    /// Add an arbitrary response header.
    #[must_use]
    pub fn with_header<V: Into<Cow<'static, str>>>(self, name: &'static str, value: V) -> (r: Self)
        ensures
            exists|v: Cow<'static, str>| #[trigger]
                call_ensures(<V as Into<Cow<'static, str>>>::into, (value,), v) && r@
                    == self@.header(name@, v@),
    {
        let v: Cow<'static, str> = value.into();
        let mut r = self;
        r.headers.push((name, v));
        assert(r@.headers =~= self@.headers.push((name@, v@)));
        r
    }

    /// Let http.sys serve this response from its kernel-mode cache for
    /// `seconds`, answering identical subsequent requests without ever
    /// entering user mode.
    ///
    /// This is a large throughput win, but it is only correct for responses
    /// that are genuinely a pure function of the request URL: the kernel will
    /// not call the handler again until the entry expires.
    #[must_use]
    pub fn cache_in_kernel_for_secs(self, seconds: u32) -> (r: Self)
        ensures
            r@ == self@.cached(seconds),
    {
        Response { cache_seconds: Some(seconds), ..self }
    }

    /// The status code.
    pub fn status(&self) -> (r: u16)
        ensures
            r == self@.status,
    {
        self.status
    }

    /// The words that go with the status code.
    pub fn reason(&self) -> (r: &'static str)
        ensures
            r@ == self@.reason,
    {
        self.reason
    }

    /// The `Content-Type` header, if it was set.
    pub fn content_type(&self) -> (r: Option<&'static str>)
        ensures
            match r {
                Some(s) => self@.content_type == Some(s@),
                None => self@.content_type is None,
            },
    {
        self.content_type
    }

    /// The further headers, in the order they were added.
    pub fn headers(&self) -> (r: &Vec<(&'static str, Cow<'static, str>)>)
        ensures
            header_views(r@) == self@.headers,
    {
        &self.headers
    }

    /// The body.
    pub fn body(&self) -> (r: &Bytes)
        ensures
            content::bytes_of(*r) == self@.body,
    {
        &self.body
    }

    /// How long the kernel may answer with this response by itself.
    pub fn cache_seconds(&self) -> (r: Option<u32>)
        ensures
            r == self@.cache_seconds,
    {
        self.cache_seconds
    }

    /// What the kernel is told of this response.
    pub fn to_raw(&self) -> (r: RawResponse)
        ensures
            r@ == self@.raw(),
    {
        let mut unknown: Vec<(u16, u16)> = Vec::new();
        let mut i: usize = 0;
        while i < self.headers.len()
            invariant
                i <= self.headers@.len(),
                unknown@.len() == i,
                forall|k: int|
                    0 <= k < i ==> unknown@[k] == raw_header(
                        #[trigger] header_views(self.headers@)[k],
                    ),
            decreases self.headers@.len() - i,
        {
            let name = self.headers[i].0;
            let value_len = match &self.headers[i].1 {
                Cow::Borrowed(s) => s.as_bytes().len(),
                Cow::Owned(s) => s.as_str().as_bytes().len(),
            };
            unknown.push((low_u16(name.as_bytes().len()), low_u16(value_len)));
            i += 1;
        }
        let body_len = low_u32(content::length(&self.body));
        let r = RawResponse {
            status: self.status,
            reason_len: low_u16(self.reason.as_bytes().len()),
            content_type_len: match self.content_type {
                Some(s) => Some(low_u16(s.as_bytes().len())),
                None => None,
            },
            body_len,
            entity_chunks: if body_len > 0 {
                1
            } else {
                0
            },
            unknown_count: low_u16(unknown.len()),
            unknown,
        };
        assert(r@ =~= self@.raw());
        r
    }
}

/// A length as the kernel takes it, in sixteen bits.
pub open spec fn len16(n: nat) -> u16 {
    (n % 0x1_0000) as u16
}

/// A length as the kernel takes it, in 32 bits.
pub open spec fn len32(n: nat) -> u32 {
    (n % 0x1_0000_0000) as u32
}

fn low_u16(n: usize) -> (r: u16)
    ensures
        r == len16(n as nat),
{
    (n % 0x1_0000) as u16
}

fn low_u32(n: usize) -> (r: u32)
    ensures
        r == len32(n as nat),
{
    (n as u64 % 0x1_0000_0000u64) as u32
}

/// The lengths of a header's name and value in bytes.
pub open spec fn raw_header(header: (Seq<char>, Seq<char>)) -> (u16, u16) {
    (
        len16(utf8::encode_utf8(header.0).len()),
        len16(utf8::encode_utf8(header.1).len()),
    )
}

/// The numbers that the kernel is told of a [`Response`], next to the addresses
/// of its texts and its body. The kernel's lengths are shorter than the
/// machine's; a longer text or body is told by the low bits of its length.
pub struct RawResponse {
    pub status: u16,
    pub reason_len: u16,
    pub content_type_len: Option<u16>,
    /// Name and value lengths of the further headers.
    pub unknown: Vec<(u16, u16)>,
    /// How many further headers there are.
    pub unknown_count: u16,
    pub body_len: u32,
    /// How many body chunks there are: one, or none for an empty body.
    pub entity_chunks: u16,
}

/// The numbers of a [`RawResponse`].
#[verifier::ext_equal]
pub struct RawView {
    pub status: u16,
    pub reason_len: u16,
    pub content_type_len: Option<u16>,
    pub unknown: Seq<(u16, u16)>,
    pub unknown_count: u16,
    pub body_len: u32,
    pub entity_chunks: u16,
}

impl View for RawResponse {
    type V = RawView;

    open spec fn view(&self) -> RawView {
        RawView {
            status: self.status,
            reason_len: self.reason_len,
            content_type_len: self.content_type_len,
            unknown: self.unknown@,
            unknown_count: self.unknown_count,
            body_len: self.body_len,
            entity_chunks: self.entity_chunks,
        }
    }
}

impl ResponseView {
    /// What the kernel is told of the response.
    pub open spec fn raw(self) -> RawView {
        RawView {
            status: self.status,
            reason_len: len16(utf8::encode_utf8(self.reason).len()),
            content_type_len: match self.content_type {
                Some(s) => Some(len16(utf8::encode_utf8(s).len())),
                None => None,
            },
            unknown: self.headers.map_values(|h: (Seq<char>, Seq<char>)| raw_header(h)),
            unknown_count: len16(self.headers.len()),
            body_len: len32(self.body.len()),
            entity_chunks: if len32(self.body.len()) > 0 {
                1
            } else {
                0
            },
        }
    }
}

/// A response carries a body chunk exactly if its body is not empty, for every
/// body that the kernel's length can tell.
pub proof fn law_empty_body_has_no_chunk(response: ResponseView)
    requires
        response.body.len() <= u32::MAX,
    ensures
        response.raw().entity_chunks == 0 <==> response.body.len() == 0,
        response.raw().body_len == response.body.len(),
{
}

/// Each builder sets its own part and leaves the others: the last body and
/// content type win, and headers add up in order.
pub proof fn law_builders_are_independent(
    response: ResponseView,
    body: Seq<u8>,
    other_body: Seq<u8>,
    content_type: Seq<char>,
    name: Seq<char>,
    value: Seq<char>,
    seconds: u32,
)
    ensures
        response.body(other_body).body(body) == response.body(body),
        response.body(body).content_type(content_type) == response.content_type(content_type).body(
            body,
        ),
        response.body(body).header(name, value) == response.header(name, value).body(body),
        response.body(body).cached(seconds) == response.cached(seconds).body(body),
        response.header(name, value).headers == response.headers.push((name, value)),
        response.header(name, value).raw().unknown == response.raw().unknown.push(
            raw_header((name, value)),
        ),
{
    assert(response.header(name, value).raw().unknown =~= response.raw().unknown.push(
        raw_header((name, value)),
    ));
}

/// Whether a value turns into the same bytes whenever it is made a body.
pub open spec fn fixed_body<B: Into<Bytes>>(body: B, bytes: Seq<u8>) -> bool {
    forall|b: Bytes| #[trigger]
        call_ensures(<B as Into<Bytes>>::into, (body,), b) ==> content::bytes_of(b) == bytes
}

/// A body is the bytes that were given, for each of the types that bodies are
/// commonly given as: byte strings, vectors, slices, and texts, which are taken as
/// UTF-8.
pub proof fn law_bodies_are_the_bytes_given(
    bytes: Bytes,
    vec: Vec<u8>,
    slice: &'static [u8],
    string: String,
    text: &'static str,
)
    ensures
        fixed_body(bytes, content::bytes_of(bytes)),
        fixed_body(vec, vec@),
        fixed_body(slice, slice@),
        fixed_body(string, utf8::encode_utf8(string@)),
        fixed_body(text, utf8::encode_utf8(text@)),
{
}

/// A body that is set later replaces the one before: what comes out says the same
/// as if only the later one had been set.
pub proof fn law_later_body_replaces<First: Into<Bytes>, Second: Into<Bytes>>(
    response: Response,
    first: First,
    second: Second,
    bytes: Seq<u8>,
    once: Response,
    twice: Response,
    direct: Response,
)
    requires
        fixed_body(second, bytes),
        call_ensures(Response::with_body::<First>, (response, first), once),
        call_ensures(Response::with_body::<Second>, (once, second), twice),
        call_ensures(Response::with_body::<Second>, (response, second), direct),
    ensures
        twice@ == direct@,
        twice@ == response@.body(bytes),
{
}

/// The status that the kernel is told is the one that the response was made with,
/// whichever that is, next to the length of its words. A response that nothing was
/// added to has no content type, no further headers and no body.
pub proof fn law_the_kernel_is_told_the_status(status: u16, response: Response, raw: RawResponse)
    requires
        call_ensures(Response::new, (status,), response),
        call_ensures(Response::to_raw, (&response,), raw),
    ensures
        raw.status == status,
        raw.reason_len as nat == utf8::encode_utf8(status::phrase(status)).len() % 0x1_0000,
        raw.content_type_len is None,
        raw.unknown@.len() == 0,
        raw.unknown_count == 0,
        raw.body_len == 0,
        raw.entity_chunks == 0,
{
}

/// Whatever was added to a response, the kernel is told the status that the
/// response itself shows, and the lengths of the words, the content type, each
/// header in order and the body that it shows.
pub proof fn law_the_kernel_is_told_what_the_response_shows(
    response: Response,
    raw: RawResponse,
    status: u16,
    reason: &'static str,
    content_type: Option<&'static str>,
    headers: &Vec<(&'static str, Cow<'static, str>)>,
    body: &Bytes,
    i: int,
)
    requires
        call_ensures(Response::to_raw, (&response,), raw),
        call_ensures(Response::status, (&response,), status),
        call_ensures(Response::reason, (&response,), reason),
        call_ensures(Response::content_type, (&response,), content_type),
        call_ensures(Response::headers, (&response,), headers),
        call_ensures(Response::body, (&response,), body),
    ensures
        raw.status == status,
        raw.reason_len as nat == utf8::encode_utf8(reason@).len() % 0x1_0000,
        raw.content_type_len is Some <==> content_type is Some,
        content_type matches Some(s) ==> raw.content_type_len->Some_0 as nat == utf8::encode_utf8(
            s@,
        ).len() % 0x1_0000,
        raw.unknown@.len() == headers@.len(),
        raw.unknown_count as nat == headers@.len() % 0x1_0000,
        0 <= i < headers@.len() ==> {
            &&& raw.unknown@[i].0 as nat == utf8::encode_utf8(headers@[i].0@).len() % 0x1_0000
            &&& raw.unknown@[i].1 as nat == utf8::encode_utf8(headers@[i].1@).len() % 0x1_0000
        },
        raw.body_len as nat == content::bytes_of(*body).len() % 0x1_0000_0000,
        raw.entity_chunks == if raw.body_len == 0 {
            0u16
        } else {
            1u16
        },
{
    if 0 <= i < headers@.len() {
        assert(header_views(headers@)[i] == (headers@[i].0@, headers@[i].1@));
        assert(response@.headers[i] == (headers@[i].0@, headers@[i].1@));
        assert(raw@.unknown[i] == raw_header(response@.headers[i]));
    }
    assert(header_views(headers@).len() == headers@.len());
}

/// A response shows what it was made with: its status, the words for it, and
/// nothing else. The default is an empty 200.
pub proof fn law_a_new_response_is_bare(
    status: u16,
    response: Response,
    default: Response,
    shown: u16,
    reason: &'static str,
    content_type: Option<&'static str>,
    headers: &Vec<(&'static str, Cow<'static, str>)>,
    body: &Bytes,
    cache_seconds: Option<u32>,
    default_status: u16,
)
    requires
        call_ensures(Response::new, (status,), response),
        call_ensures(<Response as Default>::default, (), default),
        call_ensures(Response::status, (&response,), shown),
        call_ensures(Response::reason, (&response,), reason),
        call_ensures(Response::content_type, (&response,), content_type),
        call_ensures(Response::headers, (&response,), headers),
        call_ensures(Response::body, (&response,), body),
        call_ensures(Response::cache_seconds, (&response,), cache_seconds),
        call_ensures(Response::status, (&default,), default_status),
    ensures
        shown == status,
        reason@ == status::phrase(status),
        content_type is None,
        headers@.len() == 0,
        content::bytes_of(*body).len() == 0,
        cache_seconds is None,
        default_status == 200,
        status == 200 ==> default@ == response@,
{
    assert(header_views(headers@).len() == headers@.len());
}

/// Whether two responses differ in their bodies at most.
pub open spec fn alike_but_body(a: ResponseView, b: ResponseView) -> bool {
    &&& a.status == b.status && a.reason == b.reason && a.content_type == b.content_type
    &&& a.headers == b.headers && a.cache_seconds == b.cache_seconds
}

/// Setting a part of a response sets that part to what was given and leaves every
/// other part as it was.
pub proof fn law_each_part_is_set_alone<Given: Into<Bytes>, HeaderValue: Into<Cow<'static, str>>>(
    response: Response,
    given: Given,
    bytes: Seq<u8>,
    content_type: &'static str,
    name: &'static str,
    value: HeaderValue,
    seconds: u32,
    with_body: Response,
    with_type: Response,
    with_header: Response,
    cached: Response,
)
    requires
        fixed_body(given, bytes),
        call_ensures(Response::with_body::<Given>, (response, given), with_body),
        call_ensures(Response::with_content_type, (response, content_type), with_type),
        call_ensures(Response::with_header::<HeaderValue>, (response, name, value), with_header),
        call_ensures(Response::cache_in_kernel_for_secs, (response, seconds), cached),
    ensures
        with_body@.body == bytes,
        alike_but_body(with_body@, response@),
        with_type@.content_type == Some(content_type@),
        with_type@.body == response@.body,
        alike_but_body(
            with_type@,
            (ResponseView { content_type: Some(content_type@), ..response@ }),
        ),
        with_header@.headers.len() == response@.headers.len() + 1,
        with_header@.headers.drop_last() == response@.headers,
        with_header@.headers.last().0 == name@,
        exists|v: Cow<'static, str>| #[trigger]
            call_ensures(<HeaderValue as Into<Cow<'static, str>>>::into, (value,), v)
                && with_header@.headers.last().1 == v@,
        with_header@.body == response@.body,
        alike_but_body(
            with_header@,
            (ResponseView { headers: with_header@.headers, ..response@ }),
        ),
        cached@.cache_seconds == Some(seconds),
        cached@.body == response@.body,
        alike_but_body(cached@, (ResponseView { cache_seconds: Some(seconds), ..response@ })),
{
    assert(with_header@.headers.drop_last() =~= response@.headers);
}

/// A header given as a text has that text as its value.
pub proof fn law_header_values_are_the_texts_given(
    response: Response,
    name: &'static str,
    text: &'static str,
    string: String,
    with_text: Response,
    with_string: Response,
)
    requires
        call_ensures(Response::with_header::<&'static str>, (response, name, text), with_text),
        call_ensures(Response::with_header::<String>, (response, name, string), with_string),
    ensures
        with_text@.headers.last() == (name@, text@),
        with_string@.headers.last() == (name@, string@),
{
}

/// The two short ways to a response are a 200 with the given body under their
/// content type, and nothing else.
pub proof fn law_short_ways_to_a_response<Given: Into<Bytes>>(
    given: Given,
    bytes: Seq<u8>,
    json: Response,
    text: Response,
)
    requires
        fixed_body(given, bytes),
        call_ensures(Response::ok_json::<Given>, (given,), json),
        call_ensures(Response::ok_text::<Given>, (given,), text),
    ensures
        json@.status == 200 && text@.status == 200,
        json@.reason == "OK"@ && text@.reason == "OK"@,
        json@.content_type == Some("application/json"@),
        text@.content_type == Some("text/plain; charset=utf-8"@),
        json@.body == bytes && text@.body == bytes,
        json@.headers.len() == 0 && text@.headers.len() == 0,
        json@.cache_seconds is None && text@.cache_seconds is None,
{
}

/// The parts that a response shows are those that its builders set.
pub proof fn law_a_response_shows_what_was_set<Given: Into<Bytes>>(
    response: Response,
    given: Given,
    bytes: Seq<u8>,
    content_type: &'static str,
    seconds: u32,
    with_body: Response,
    with_type: Response,
    cached: Response,
    body: &Bytes,
    shown_type: Option<&'static str>,
    shown_seconds: Option<u32>,
    status_before: u16,
    status_after: u16,
)
    requires
        fixed_body(given, bytes),
        call_ensures(Response::with_body::<Given>, (response, given), with_body),
        call_ensures(Response::with_content_type, (with_body, content_type), with_type),
        call_ensures(Response::cache_in_kernel_for_secs, (with_type, seconds), cached),
        call_ensures(Response::body, (&cached,), body),
        call_ensures(Response::content_type, (&cached,), shown_type),
        call_ensures(Response::cache_seconds, (&cached,), shown_seconds),
        call_ensures(Response::status, (&response,), status_before),
        call_ensures(Response::status, (&cached,), status_after),
    ensures
        content::bytes_of(*body) == bytes,
        shown_type matches Some(s) && s@ == content_type@,
        shown_seconds == Some(seconds),
        status_after == status_before,
{
}

} // verus!
