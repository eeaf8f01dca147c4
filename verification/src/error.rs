//! Error types for the `httpsys` crate.

use crate::text;
use vstd::prelude::*;

verus! {

/// All errors returned by this crate.
#[derive(Debug, Clone, PartialEq, Eq, Structural)]
pub enum Error {
    /// A Win32 status code returned from an `Http*` or IOCP call.
    ///
    /// This is the plain Win32 value (e.g. `5` for `ERROR_ACCESS_DENIED`),
    /// never an `HRESULT`.
    Win32(u32),
    /// The request headers did not fit in the receive buffer, even after a
    /// retry. Raise `ServerConfig::request_buffer_bytes` if this shows up.
    HeadersTooLarge { needed: u32 },
    /// The request queue is shut down or the handle is invalid.
    QueueClosed,
}

/// Convenient `Result` alias.
pub type Result<T> = core::result::Result<T, Error>;

/// The `HRESULT` that stands for a Win32 status code: zero for success, and
/// otherwise the code under the severity and facility bits of `0x8007_0000`.
pub open spec fn hresult_of_win32(code: u32) -> i32 {
    if code == 0 {
        0
    } else {
        ((code as int % 0x1_0000) + 0x8007_0000 - 0x1_0000_0000) as i32
    }
}

/// The Win32 code inside an `HRESULT`: its low sixteen bits.
pub open spec fn win32_of_hresult(hresult: i32) -> u32 {
    (hresult as int % 0x1_0000) as u32
}

impl Error {
    /// What an error reads as, given the system's own wording for its code.
    pub open spec fn description(self, os_message: Seq<char>) -> Seq<char> {
        match self {
            Error::Win32(code) => {
                let head = "Win32 error "@ + text::decimal(code as nat);
                if text::trim(os_message).len() == 0 {
                    head
                } else {
                    head + ": "@ + text::trim(os_message)
                }
            },
            Error::HeadersTooLarge { needed } => {
                "request headers too large: "@ + text::decimal(needed as nat) + " bytes needed"@
            },
            Error::QueueClosed => "request queue closed"@,
        }
    }

    /// The underlying Win32 status code, if this is an [`Error::Win32`].
    pub fn win32_code(&self) -> (r: Option<u32>)
        ensures
            r == match *self {
                Error::Win32(code) => Some(code),
                _ => None,
            },
    {
        match self {
            Error::Win32(code) => Some(*code),
            _ => None,
        }
    }

    /// Map a raw Win32 status code (0 = success) into a `Result`.
    pub fn check(ec: u32) -> (r: Result<()>)
        ensures
            r == if ec == 0 {
                Ok(())
            } else {
                Err(Error::Win32(ec))
            },
    {
        if ec == 0 {
            Ok(())
        } else {
            Err(Error::Win32(ec))
        }
    }

    /// Recovers the Win32 code from an `HRESULT` produced by a
    /// `FACILITY_WIN32` API: its low sixteen bits.
    pub fn from_hresult(hresult: i32) -> (r: Self)
        ensures
            r == Error::Win32(win32_of_hresult(hresult)),
    {
        let bits: u32 = (hresult as i64 & 0xFFFF) as u32;
        assert((hresult as i64 & 0xFFFF) == hresult as int % 0x1_0000) by {
            let wide = hresult as i64;
            assert((wide & 0xFFFF) == wide as int % 0x1_0000) by (bit_vector);
        }
        Error::Win32(bits)
    }

    /// What this error reads as. `os_message` is the system's own wording for
    /// the status code; the other variants ignore it.
    pub fn describe(&self, os_message: &str) -> (r: String)
        ensures
            r@ == self.description(os_message@),
    {
        match self {
            Error::Win32(code) => {
                let message = text::trim_text(os_message);
                let mut out = "Win32 error ".to_owned();
                text::push_decimal(&mut out, *code as u64);
                if !message.as_str().is_empty() {
                    out.append(": ");
                    out.append(message.as_str());
                }
                out
            },
            Error::HeadersTooLarge { needed } => {
                let mut out = "request headers too large: ".to_owned();
                text::push_decimal(&mut out, *needed as u64);
                out.append(" bytes needed");
                out
            },
            Error::QueueClosed => "request queue closed".to_owned(),
        }
    }
}

/// A Win32 code of up to sixteen bits survives the trip through its `HRESULT`.
pub proof fn law_hresult_round_trip(code: u32)
    requires
        code < 0x1_0000,
    ensures
        win32_of_hresult(hresult_of_win32(code)) == code,
{
}

/// Zero is success, and every other code is an error that shows that code.
pub proof fn law_zero_is_success(ec: u32, r: Result<()>, shown: Option<u32>)
    requires
        call_ensures(Error::check, (ec,), r),
        r matches Err(e) ==> call_ensures(Error::win32_code, (&e,), shown),
    ensures
        r is Ok <==> ec == 0,
        r is Err ==> shown == Some(ec),
{
}

/// Only the error that is a code shows one.
pub proof fn law_only_codes_are_shown(e: Error, shown: Option<u32>)
    requires
        call_ensures(Error::win32_code, (&e,), shown),
    ensures
        shown is Some <==> e is Win32,
        shown matches Some(code) ==> e == Error::Win32(code),
{
}

/// An `HRESULT` gives its low sixteen bits as the code, and so gives back the code
/// that it was made of.
pub proof fn law_an_hresult_gives_its_code(hresult: i32, e: Error, code: u32)
    requires
        call_ensures(Error::from_hresult, (hresult,), e),
    ensures
        e matches Error::Win32(low) && low < 0x1_0000 && (hresult - low) % 0x1_0000 == 0,
        0 < code < 0x1_0000 && hresult == code + 0x8007_0000 - 0x1_0000_0000 ==> e == Error::Win32(
            code,
        ),
        hresult == 0 ==> e == Error::Win32(0),
{
}

/// An error reads as what it is: a code with the system's wording behind it, if it
/// has any, the size that headers needed, or a closed queue.
pub proof fn law_errors_read_as_what_they_are(e: Error, os_message: &str, r: String)
    requires
        call_ensures(Error::describe, (&e, os_message), r),
    ensures
        e matches Error::Win32(code) ==> {
            let message = text::trim(os_message@);
            r@ == if message.len() == 0 {
                "Win32 error "@ + text::decimal(code as nat)
            } else {
                "Win32 error "@ + text::decimal(code as nat) + ": "@ + message
            }
        },
        e matches Error::HeadersTooLarge { needed } ==> r@ == "request headers too large: "@
            + text::decimal(needed as nat) + " bytes needed"@,
        e is QueueClosed ==> r@ == "request queue closed"@,
{
}

} // verus!
