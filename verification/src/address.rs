//! Addresses: which texts are URLs, and what a URL reads with another port or
//! path.

use crate::text;
use reqwest::Url;
use vstd::prelude::*;
use vstd::utf8;

verus! {

/// What `Url::parse` makes of a text: the URL as it is written out, or the
/// wording of the error.
pub uninterp spec fn parsed_url(text: Seq<char>) -> core::result::Result<Seq<char>, Seq<char>>;

/// What `Url::set_port` makes of a URL: the URL as it is written out with the
/// port, or nothing for a text that is no URL and for a URL that takes no port.
pub uninterp spec fn url_with_port(url: Seq<char>, port: u16) -> Option<Seq<char>>;

/// What `Url::set_path` makes of a URL: the URL as it is written out with the
/// path, or nothing for a text that is no URL.
pub uninterp spec fn url_with_path(url: Seq<char>, path: Seq<char>) -> Option<Seq<char>>;

/// The address of this machine's port, as it is written out: without the port if
/// it is the one that goes without saying.
pub open spec fn local_root(port: u16) -> Seq<char> {
    if port == 80 {
        "http://localhost/"@
    } else {
        "http://localhost:"@ + text::decimal(port as nat) + "/"@
    }
}

/// How many bytes of a URL a byte of a path takes: none for tabs and line breaks,
/// which are dropped, three for what is escaped, and one for anything else.
pub open spec fn path_width(byte: u8) -> nat {
    if byte == 0x09 || byte == 0x0a || byte == 0x0d {
        0
    } else if byte <= 0x20 || byte >= 0x7f || byte == 0x22 || byte == 0x23 || byte == 0x3c || byte
        == 0x3e || byte == 0x3f || byte == 0x60 || byte == 0x7b || byte == 0x7d {
        3
    } else {
        1
    }
}

/// How many bytes of a URL the bytes of a path take.
pub open spec fn escaped_len(bytes: Seq<u8>) -> nat
    decreases bytes.len(),
{
    if bytes.len() == 0 {
        0
    } else {
        escaped_len(bytes.drop_last()) + path_width(bytes.last())
    }
}

/// Whether a URL can take a path. URLs count their parts in 32 bits, and up to
/// four bytes more may be needed where the path meets the rest.
pub open spec fn takes_path(url: Seq<char>, path: Seq<char>) -> bool {
    utf8::encode_utf8(url).len() + escaped_len(utf8::encode_utf8(path)) + 4 <= u32::MAX
}

/// Whether a URL can take a port: a colon and up to five digits.
pub open spec fn takes_port(url: Seq<char>) -> bool {
    utf8::encode_utf8(url).len() + 6 <= u32::MAX
}

/// Reads a URL, through `Url::parse`. What comes out depends on the text alone; a
/// plain `http` address comes out as it went in.
#[verifier::external_body]
fn parse(text: &str) -> (r: core::result::Result<String, String>)
    ensures
        match r {
            Ok(url) => parsed_url(text@) matches Ok(u) && u == url@,
            Err(error) => parsed_url(text@) matches Err(e) && e == error@,
        },
        text@ == "http://localhost/"@ ==> r is Ok && r->Ok_0@ == text@,
{
    match Url::parse(text) {
        Ok(url) => Ok(String::from(url)),
        Err(error) => Err(error.to_string()),
    }
}

/// Sets the port of a URL, through `Url::set_port`. What comes out depends on
/// the URL and the port alone. For the address of this machine it is written
/// down, and reads back as it is. Longer URLs are left out because the call
/// panics where the URL outgrows 32 bits.
#[verifier::external_body]
fn set_port(url: &str, port: u16) -> (r: Option<String>)
    requires
        parsed_url(url@) matches Ok(u) ==> takes_port(u),
    ensures
        match r {
            Some(text) => url_with_port(url@, port) == Some(text@),
            None => url_with_port(url@, port) is None,
        },
        url@ == "http://localhost/"@ ==> r is Some && r->Some_0@ == local_root(port),
        url@ == "http://localhost/"@ ==> parsed_url(r->Some_0@) is Ok && parsed_url(
            r->Some_0@,
        )->Ok_0 == r->Some_0@,
{
    let mut parsed = Url::parse(url).ok()?;
    parsed.set_port(Some(port)).ok()?;
    Some(String::from(parsed))
}

/// Sets the path of a URL, through `Url::set_path`, which cannot fail on a URL.
/// What comes out depends on the URL and the path alone. Longer URLs and paths
/// are left out because the call panics where the URL outgrows 32 bits.
#[verifier::external_body]
fn set_path(url: &str, path: &str) -> (r: Option<String>)
    requires
        parsed_url(url@) matches Ok(u) ==> takes_path(u, path@),
    ensures
        match r {
            Some(text) => url_with_path(url@, path@) == Some(text@),
            None => url_with_path(url@, path@) is None,
        },
        r is Some <==> parsed_url(url@) is Ok,
{
    let mut parsed = Url::parse(url).ok()?;
    parsed.set_path(path);
    Some(String::from(parsed))
}

/// The URL that `url` spells, as it is written out, or why it spells none.
pub fn is_valid_url(url: &str) -> (r: core::result::Result<String, String>)
    ensures
        match r {
            Ok(text) => parsed_url(url@) matches Ok(u) && u == text@,
            Err(error) => parsed_url(url@) matches Err(e) && e == error@,
        },
{
    parse(url)
}

/// How many bytes of a URL a path takes.
fn path_len(path: &str) -> (r: u128)
    ensures
        r == escaped_len(utf8::encode_utf8(path@)),
        r <= 3 * usize::MAX,
{
    let bytes = path.as_bytes();
    let mut total: u128 = 0;
    let mut i: usize = 0;
    while i < bytes.len()
        invariant
            i <= bytes@.len(),
            total == escaped_len(bytes@.take(i as int)),
            total <= 3 * i,
        decreases bytes@.len() - i,
    {
        let byte = bytes[i];
        let width: u128 = match byte {
            0x09 | 0x0a | 0x0d => 0,
            0..=0x20 | 0x22 | 0x23 | 0x3c | 0x3e | 0x3f | 0x60 | 0x7b | 0x7d | 0x7f..=0xff => 3,
            _ => 1,
        };
        assert(bytes@.take(i + 1).drop_last() =~= bytes@.take(i as int));
        total += width;
        i += 1;
    }
    assert(bytes@.take(i as int) =~= bytes@);
    total
}

/// Whether `url` is a URL that can take the path.
pub open spec fn can_reroute(url: Seq<char>, path: Seq<char>) -> bool {
    parsed_url(url) matches Ok(u) && takes_path(u, path)
}

/// The URL with another path.
pub fn reroute(url: &str, path: &str) -> (r: Option<String>)
    ensures
        match r {
            Some(text) => can_reroute(url@, path@) && url_with_path(url@, path@) == Some(text@),
            None => !can_reroute(url@, path@),
        },
{
    match parse(url) {
        Ok(written) => {
            let room: u128 = written.as_str().as_bytes().len() as u128 + path_len(path) + 4;
            if room <= u32::MAX as u128 {
                set_path(url, path)
            } else {
                None
            }
        },
        Err(_) => None,
    }
}

/// A server that is run as a process of its own.
#[derive(Debug)]
pub struct ServerExe {
    /// The port that it listens on.
    pub port: u16,
}

impl ServerExe {
    /// The address of `path` on the server. `None` only if the path is too long
    /// for a URL.
    pub fn format_req_url(&self, path: &str) -> (r: Option<String>)
        ensures
            match r {
                Some(text) => url_with_path(local_root(self.port), path@) == Some(text@),
                None => !takes_path(local_root(self.port), path@),
            },
            escaped_len(utf8::encode_utf8(path@)) + 27 <= u32::MAX ==> r is Some,
    {
        proof {
            lemma_local_root(80);
            lemma_local_root(self.port);
        }
        match parse("http://localhost/") {
            Ok(base) => match set_port(base.as_str(), self.port) {
                Some(root) => reroute(root.as_str(), path),
                None => None,
            },
            Err(_) => None,
        }
    }

    /// The arguments that make this program a server on the port.
    pub fn args(&self) -> (r: Vec<String>)
        ensures
            r@.len() == 2,
            r@[0]@ == "server"@,
            r@[1]@ == "http://localhost:"@ + text::decimal(self.port as nat) + "/"@,
    {
        let mut url = "http://localhost:".to_owned();
        text::push_decimal(&mut url, self.port as u64);
        url.append("/");
        let mut args: Vec<String> = Vec::new();
        args.push("server".to_owned());
        args.push(url);
        args
    }
}

proof fn lemma_local_root(port: u16)
    ensures
        utf8::encode_utf8(local_root(port)).len() <= 23,
{
    reveal_strlit("http://localhost/");
    reveal_strlit("http://localhost:");
    reveal_strlit("/");
    text::law_decimal_reads_back(port as nat, u16::MAX as nat);
    assert(text::decimal(port as nat).len() <= 5) by {
        reveal_with_fuel(text::decimal, 6);
    }
    let root = local_root(port);
    assert(utf8::is_ascii_chars(root)) by {
        assert forall|i: int| 0 <= i < root.len() implies '\0' <= #[trigger] root[i] <= '\u{7f}' by {
            if port != 80 && 17 <= i < 17 + text::decimal(port as nat).len() {
                assert(root[i] == text::decimal(port as nat)[i - 17]);
            }
        }
    }
    utf8::is_ascii_chars_encode_utf8(root);
}

/// A URL takes every path as long as the two fit: each byte of a path takes three at
/// most, and a letter, a digit or a slash takes one. A text that is no URL takes
/// none, and what comes of one that does is what setting its path gives.
pub proof fn law_which_paths_a_url_takes(
    url: &str,
    path: &str,
    written: core::result::Result<String, String>,
    r: Option<String>,
)
    requires
        call_ensures(is_valid_url, (url,), written),
        call_ensures(reroute, (url, path), r),
    ensures
        written is Err ==> r is None,
        written matches Ok(u) ==> {
            let room = utf8::encode_utf8(u@).len() + 4;
            let bytes = utf8::encode_utf8(path@);
            &&& room + 3 * bytes.len() <= u32::MAX ==> r is Some
            &&& room + bytes.len() <= u32::MAX && (forall|i: int|
                0 <= i < bytes.len() ==> {
                    let b = #[trigger] bytes[i];
                    65 <= b <= 90 || 97 <= b <= 122 || 47 <= b <= 57
                }) ==> r is Some
        },
        r matches Some(text) ==> url_with_path(url@, path@) == Some(text@),
        written matches Ok(u) ==> parsed_url(url@) == Ok::<Seq<char>, Seq<char>>(u@),
        written matches Err(e) ==> parsed_url(url@) == Err::<Seq<char>, Seq<char>>(e@),
{
    lemma_escaped(utf8::encode_utf8(path@));
}

proof fn lemma_escaped(bytes: Seq<u8>)
    ensures
        escaped_len(bytes) <= 3 * bytes.len(),
        (forall|i: int|
            0 <= i < bytes.len() ==> {
                let b = #[trigger] bytes[i];
                65 <= b <= 90 || 97 <= b <= 122 || 47 <= b <= 57
            }) ==> escaped_len(bytes) == bytes.len(),
    decreases bytes.len(),
{
    if bytes.len() > 0 {
        lemma_escaped(bytes.drop_last());
    }
}

/// A request to a server goes to this machine and the server's port, which is left
/// out if it is the one that goes without saying, under the path that is asked for.
pub proof fn law_requests_go_to_the_servers_port(server: ServerExe, path: &str, r: Option<String>)
    requires
        call_ensures(ServerExe::format_req_url, (&server, path), r),
    ensures
        3 * utf8::encode_utf8(path@).len() + 27 <= u32::MAX ==> r is Some,
        r matches Some(text) ==> ({
            let root = if server.port == 80 {
                "http://localhost/"@
            } else {
                "http://localhost:"@ + text::decimal(server.port as nat) + "/"@
            };
            url_with_path(root, path@) == Some(text@)
        }),
{
    lemma_escaped(utf8::encode_utf8(path@));
}

/// A server is started with two arguments: the word for it and the address that it
/// listens on, always with its port.
pub proof fn law_how_a_demo_server_is_started(server: ServerExe, args: Vec<String>)
    requires
        call_ensures(ServerExe::args, (&server,), args),
    ensures
        args@.len() == 2,
        args@[0]@ == "server"@,
        args@[1]@ == "http://localhost:"@ + text::decimal(server.port as nat) + "/"@,
{
}

} // verus!
