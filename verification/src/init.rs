//! http.sys initialization: process-global init, server sessions, URL groups.
//!
//! The kernel calls are made by the caller; the types here stand for what those
//! calls opened, and exist only where they succeeded.

use crate::error::{Error, Result};
use crate::text;
use std::borrow::Cow;
use vstd::prelude::*;

verus! {

/// Version of the server API that is asked for, as `(major, minor)`.
pub const HTTPAPI_VERSION_2: (u16, u16) = (2, 0);

/// Property flags with the `Present` bit set.
pub const PROPERTY_PRESENT: u32 = 1;

/// Proof that `HttpInitialize` succeeded.
///
/// Required before any other http.sys call. Keep one alive for the lifetime of
/// any server you build.
#[derive(Debug)]
pub struct HttpInitializer {
    _private: (),
}

impl HttpInitializer {
    /// What `HttpInitialize` opened, given the status code it returned.
    pub fn new(ec: u32) -> (r: Result<Self>)
        ensures
            match r {
                Ok(_) => ec == 0,
                Err(e) => ec != 0 && e == Error::Win32(ec),
            },
    {
        match Error::check(ec) {
            Ok(_) => Ok(HttpInitializer { _private: () }),
            Err(e) => Err(e),
        }
    }
}

/// A server session groups one or more URL groups under shared properties
/// (timeouts, authentication, logging, ...).
#[derive(Debug)]
pub struct ServerSession {
    pub id: u64,
}

impl ServerSession {
    /// What `HttpCreateServerSession` opened, given the status code it returned
    /// and the id it wrote.
    pub fn new(ec: u32, id: u64) -> (r: Result<Self>)
        ensures
            match r {
                Ok(session) => ec == 0 && session.id == id,
                Err(e) => ec != 0 && e == Error::Win32(ec),
            },
    {
        match Error::check(ec) {
            Ok(_) => Ok(ServerSession { id }),
            Err(e) => Err(e),
        }
    }
}

/// A URL group ties one or more URL prefixes to a request queue.
#[derive(Debug)]
pub struct UrlGroup {
    pub session_id: u64,
    pub id: u64,
}

impl UrlGroup {
    /// What `HttpCreateUrlGroup` opened in `session`, given the status code it
    /// returned and the id it wrote.
    pub fn new(session: &ServerSession, ec: u32, id: u64) -> (r: Result<Self>)
        ensures
            match r {
                Ok(group) => ec == 0 && group.id == id && group.session_id == session.id,
                Err(e) => ec != 0 && e == Error::Win32(ec),
            },
    {
        match Error::check(ec) {
            Ok(_) => Ok(UrlGroup { session_id: session.id, id }),
            Err(e) => Err(e),
        }
    }

    /// Add a URL prefix such as `http://+:8080/api/`, through `register`, which
    /// is given this group's id, the prefix as http.sys wants it and `context`,
    /// and returns a status code.
    ///
    /// http.sys requires prefixes to end in `/`; one is appended if missing.
    /// `context` is echoed back for every request that matches this prefix.
    pub fn add_url<'a, F: FnOnce(u64, Cow<'a, str>, u64) -> u32>(
        &self,
        url: &'a str,
        context: u64,
        register: F,
    ) -> (r: Result<()>)
        requires
            forall|prefix: Cow<'a, str>|
                prefix@ == normalized(url@) ==> call_requires(
                    register,
                    (self.id, prefix, context),
                ),
        ensures
            exists|prefix: Cow<'a, str>, ec: u32|
                {
                    &&& prefix@ == normalized(url@)
                    &&& #[trigger] call_ensures(register, (self.id, prefix, context), ec)
                    &&& match r {
                        Ok(_) => ec == 0,
                        Err(e) => ec != 0 && e == Error::Win32(ec),
                    }
                },
    {
        let prefix = normalize_prefix(url);
        let ec = register(self.id, prefix, context);
        Error::check(ec)
    }
}

/// A URL prefix as http.sys wants it: with a slash at the end.
pub open spec fn normalized(url: Seq<char>) -> Seq<char> {
    if url.len() > 0 && url.last() == '/' {
        url
    } else {
        url.push('/')
    }
}

/// http.sys rejects any URL prefix that does not end in `/`.
pub fn normalize_prefix<'a>(url: &'a str) -> (r: Cow<'a, str>)
    ensures
        r@ == normalized(url@),
        r is Borrowed <==> url@.len() > 0 && url@.last() == '/',
{
    let chars = text::chars_of(url);
    if chars.len() > 0 && chars[chars.len() - 1] == '/' {
        Cow::from(url)
    } else {
        let mut out = url.to_owned();
        text::push_char(&mut out, '/');
        Cow::from(out)
    }
}

/// The line to log when a closing call returned `ec`, `None` if there is
/// nothing to report. `os_message` is the system's wording for the code.
pub fn closing_failure(call: &str, ec: u32, os_message: &str) -> (r: Option<String>)
    ensures
        match r {
            None => ec == 0,
            Some(line) => ec != 0 && line@ == "httpsys: "@ + call@ + " failed: "@ + Error::Win32(
                ec,
            ).description(os_message@),
        },
{
    if ec == 0 {
        return None;
    }
    let mut line = "httpsys: ".to_owned();
    line.append(call);
    line.append(" failed: ");
    line.append(Error::Win32(ec).describe(os_message).as_str());
    Some(line)
}

/// A prefix is made fit at most once: what is fit already stays as it is, and
/// whatever comes out is fit.
pub proof fn law_normalizing_settles(url: Seq<char>)
    ensures
        normalized(url).last() == '/',
        normalized(normalized(url)) == normalized(url),
        url.is_prefix_of(normalized(url)),
{
}

/// A prefix that ends in a slash is handed on as it is, without a copy, and every
/// other one gets a single slash at its end.
pub proof fn law_prefixes_end_in_one_more_slash_at_most<'a>(url: &'a str, prefix: Cow<'a, str>)
    requires
        call_ensures(normalize_prefix, (url,), prefix),
    ensures
        url@.len() > 0 && url@.last() == '/' ==> prefix@ == url@ && prefix is Borrowed,
        url@.len() == 0 || url@.last() != '/' ==> prefix@ == url@ + seq!['/'] && prefix is Owned,
{
}

/// What a kernel call opened exists if and only if the call returned zero, and has
/// the id that the call wrote; otherwise the code that it returned is the error.
pub proof fn law_handles_exist_where_the_call_succeeded(
    ec: u32,
    id: u64,
    initializer: Result<HttpInitializer>,
    session: Result<ServerSession>,
    parent: &ServerSession,
    group: Result<UrlGroup>,
)
    requires
        call_ensures(HttpInitializer::new, (ec,), initializer),
        call_ensures(ServerSession::new, (ec, id), session),
        call_ensures(UrlGroup::new, (parent, ec, id), group),
    ensures
        initializer is Ok <==> ec == 0,
        session is Ok <==> ec == 0,
        group is Ok <==> ec == 0,
        initializer matches Err(e) ==> e == Error::Win32(ec),
        session matches Err(e) ==> e == Error::Win32(ec),
        group matches Err(e) ==> e == Error::Win32(ec),
        session matches Ok(s) ==> s.id == id,
        group matches Ok(g) ==> g.id == id && g.session_id == parent.id,
{
}

/// A URL is added to the group that it is added through, with the context that it
/// is added for, and it is added if and only if the kernel returned zero.
pub proof fn law_the_kernel_decides_on_a_url<'a, F: FnOnce(u64, Cow<'a, str>, u64) -> u32>(
    group: &UrlGroup,
    url: &'a str,
    context: u64,
    register: F,
    added: Result<()>,
)
    requires
        call_ensures(UrlGroup::add_url::<'a, F>, (group, url, context, register), added),
    ensures
        exists|prefix: Cow<'a, str>, ec: u32|
            {
                &&& #[trigger] call_ensures(register, (group.id, prefix, context), ec)
                &&& prefix@ == url@ || prefix@ == url@.push('/')
                &&& prefix@.last() == '/'
                &&& url@.len() > 0 && url@.last() == '/' ==> prefix@ == url@
                &&& added is Ok <==> ec == 0
                &&& added matches Err(e) ==> e == Error::Win32(ec)
            },
{
}

/// A closing call that failed is reported with its name, its code and the system's
/// wording, and one that went well is not.
pub proof fn law_closing_failures_are_reported(
    call: &str,
    ec: u32,
    os_message: &str,
    line: Option<String>,
)
    requires
        call_ensures(closing_failure, (call, ec, os_message), line),
    ensures
        line is Some <==> ec != 0,
        line matches Some(text) ==> ({
            let head = "httpsys: "@ + call@ + " failed: Win32 error "@ + text::decimal(ec as nat);
            &&& head.is_prefix_of(text@)
            &&& text::trim(os_message@).len() == 0 ==> text@ == head
            &&& text::trim(os_message@).len() > 0 ==> text@ == head + ": "@ + text::trim(
                os_message@,
            )
        }),
{
    if let Some(text) = line {
        reveal_strlit(" failed: ");
        reveal_strlit("Win32 error ");
        reveal_strlit(" failed: Win32 error ");
        assert(" failed: "@ + "Win32 error "@ =~= " failed: Win32 error "@);
        let head = "httpsys: "@ + call@ + " failed: Win32 error "@ + text::decimal(ec as nat);
        assert(head =~= "httpsys: "@ + call@ + " failed: "@ + ("Win32 error "@ + text::decimal(
            ec as nat,
        )));
        assert(head + ": "@ + text::trim(os_message@) =~= "httpsys: "@ + call@ + " failed: "@ + (
        "Win32 error "@ + text::decimal(ec as nat) + ": "@ + text::trim(os_message@)));
        assert(text@ == head || text@ == head + ": "@ + text::trim(os_message@));
        assert(head.is_prefix_of(head + ": "@ + text::trim(os_message@)));
    }
}

} // verus!
