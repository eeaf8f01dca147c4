//! HTTP status codes used often enough to deserve constants.

use vstd::prelude::*;

verus! {

pub const OK: u16 = 200;

pub const NO_CONTENT: u16 = 204;

pub const BAD_REQUEST: u16 = 400;

pub const NOT_FOUND: u16 = 404;

pub const METHOD_NOT_ALLOWED: u16 = 405;

pub const PAYLOAD_TOO_LARGE: u16 = 413;

pub const HEADERS_TOO_LARGE: u16 = 431;

pub const INTERNAL_SERVER_ERROR: u16 = 500;

pub const SERVICE_UNAVAILABLE: u16 = 503;

/// Whether a status code reports success: the two hundreds.
pub open spec fn success(status: u16) -> bool {
    200 <= status < 300
}

/// Whether a status code reports success.
pub fn is_success(status: u16) -> (r: bool)
    ensures
        r == success(status),
{
    200 <= status && status < 300
}

/// The words that go with a status code.
pub open spec fn phrase(status: u16) -> Seq<char> {
    match status {
        200 => "OK"@,
        201 => "Created"@,
        202 => "Accepted"@,
        204 => "No Content"@,
        301 => "Moved Permanently"@,
        302 => "Found"@,
        304 => "Not Modified"@,
        400 => "Bad Request"@,
        401 => "Unauthorized"@,
        403 => "Forbidden"@,
        404 => "Not Found"@,
        405 => "Method Not Allowed"@,
        409 => "Conflict"@,
        413 => "Content Too Large"@,
        429 => "Too Many Requests"@,
        431 => "Request Header Fields Too Large"@,
        500 => "Internal Server Error"@,
        501 => "Not Implemented"@,
        502 => "Bad Gateway"@,
        503 => "Service Unavailable"@,
        504 => "Gateway Timeout"@,
        _ => "Unknown"@,
    }
}

/// The words that go with a status code; every code has some.
pub fn reason_phrase(status: u16) -> (r: &'static str)
    ensures
        r@ == phrase(status),
{
    match status {
        200 => "OK",
        201 => "Created",
        202 => "Accepted",
        204 => "No Content",
        301 => "Moved Permanently",
        302 => "Found",
        304 => "Not Modified",
        400 => "Bad Request",
        401 => "Unauthorized",
        403 => "Forbidden",
        404 => "Not Found",
        405 => "Method Not Allowed",
        409 => "Conflict",
        413 => "Content Too Large",
        429 => "Too Many Requests",
        431 => "Request Header Fields Too Large",
        500 => "Internal Server Error",
        501 => "Not Implemented",
        502 => "Bad Gateway",
        503 => "Service Unavailable",
        504 => "Gateway Timeout",
        _ => "Unknown",
    }
}

/// Every status has words to go with it, known or not.
pub proof fn law_every_status_has_words(status: u16)
    ensures
        phrase(status).len() > 0,
{
    reveal_strlit("OK");
    reveal_strlit("Created");
    reveal_strlit("Accepted");
    reveal_strlit("No Content");
    reveal_strlit("Moved Permanently");
    reveal_strlit("Found");
    reveal_strlit("Not Modified");
    reveal_strlit("Bad Request");
    reveal_strlit("Unauthorized");
    reveal_strlit("Forbidden");
    reveal_strlit("Not Found");
    reveal_strlit("Method Not Allowed");
    reveal_strlit("Conflict");
    reveal_strlit("Content Too Large");
    reveal_strlit("Too Many Requests");
    reveal_strlit("Request Header Fields Too Large");
    reveal_strlit("Internal Server Error");
    reveal_strlit("Not Implemented");
    reveal_strlit("Bad Gateway");
    reveal_strlit("Service Unavailable");
    reveal_strlit("Gateway Timeout");
    reveal_strlit("Unknown");
}

/// Whether a status is one of those that have words of their own.
pub open spec fn has_words(status: u16) -> bool {
    ||| 200 <= status <= 202 || status == 204
    ||| status == 301 || status == 302 || status == 304
    ||| status == 400 || status == 401 || 403 <= status <= 405 || status == 409 || status == 413
    ||| status == 429 || status == 431
    ||| 500 <= status <= 504
}

/// Each status that has words has those that the standard gives it.
pub proof fn law_the_words_of_each_status(status: u16, words: &'static str)
    requires
        call_ensures(reason_phrase, (status,), words),
    ensures
        status == 200 ==> words@ == "OK"@,
        status == 201 ==> words@ == "Created"@,
        status == 202 ==> words@ == "Accepted"@,
        status == 204 ==> words@ == "No Content"@,
        status == 301 ==> words@ == "Moved Permanently"@,
        status == 302 ==> words@ == "Found"@,
        status == 304 ==> words@ == "Not Modified"@,
        status == 400 ==> words@ == "Bad Request"@,
        status == 401 ==> words@ == "Unauthorized"@,
        status == 403 ==> words@ == "Forbidden"@,
        status == 404 ==> words@ == "Not Found"@,
        status == 405 ==> words@ == "Method Not Allowed"@,
        status == 409 ==> words@ == "Conflict"@,
        status == 413 ==> words@ == "Content Too Large"@,
        status == 429 ==> words@ == "Too Many Requests"@,
        status == 431 ==> words@ == "Request Header Fields Too Large"@,
        status == 500 ==> words@ == "Internal Server Error"@,
        status == 501 ==> words@ == "Not Implemented"@,
        status == 502 ==> words@ == "Bad Gateway"@,
        status == 503 ==> words@ == "Service Unavailable"@,
        status == 504 ==> words@ == "Gateway Timeout"@,
        !has_words(status) ==> words@ == "Unknown"@,
{
}

/// A status reports success exactly if it is one of the two hundreds.
pub proof fn law_the_two_hundreds_are_successes(status: u16, r: bool)
    requires
        call_ensures(is_success, (status,), r),
    ensures
        r <==> status / 100 == 2,
{
}

} // verus!
