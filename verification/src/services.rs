use vstd::prelude::*;
use crate::decimal::{parse_i32, parse_i32_spec, IntErrorKind};
use crate::error::{Error, ErrorKind};

verus! {

/// What identifies a service.
pub struct ServiceInfo {
    pub name: &'static str,
}

/// An endpoint's rate limit: how many requests a window allows, how many are
/// left, and when the window resets.
#[derive(Clone, Copy, Debug, PartialEq, Eq, Structural)]
pub struct RateLimit {
    pub limit: i32,
    pub remaining: i32,
    pub reset: i32,
}

impl Default for RateLimit {
    fn default() -> (r: Self)
        ensures
            r == (RateLimit { limit: 1, remaining: 1, reset: 0 }),
    {
        RateLimit { limit: 1, remaining: 1, reset: 0 }
    }
}

/// The state of a rate limit after asking at time `now` whether a request may
/// go, and the answer: a window that reset before `now` is full again.
pub open spec fn refresh_step(r: RateLimit, now: i64) -> (RateLimit, bool) {
    if r.reset < now {
        (RateLimit { remaining: r.limit, ..r }, true)
    } else {
        (r, r.remaining > 0)
    }
}

impl RateLimit {
    /// Whether a request may go at time `now`; a window that reset before then
    /// starts full again.
    pub fn can_refresh(&mut self, now: i64) -> (r: bool)
        ensures
            (*final(self), r) == refresh_step(*old(self), now),
    {
        if (self.reset as i64) < now {
            self.remaining = self.limit;
            true
        } else {
            self.remaining > 0
        }
    }
}

/// A request may go exactly when the window has reset or a request is left in
/// it: within the window, one remaining request is enough, and the answer is
/// no only when none is left.
pub proof fn refresh_allowed_while_requests_remain(r: RateLimit, now: i64)
    ensures
        refresh_step(r, now).1 <==> (r.reset < now || r.remaining > 0),
        r.reset >= now && r.remaining > 0 ==> refresh_step(r, now).1,
        !refresh_step(r, now).1 ==> r.reset >= now && r.remaining <= 0,
{
}

/// Asking never changes the limit or the reset time; within the window it
/// changes nothing, and after the window reset the requests left are the
/// whole limit again.
pub proof fn asking_refills_only_after_reset(r: RateLimit, now: i64)
    ensures
        refresh_step(r, now).0.limit == r.limit,
        refresh_step(r, now).0.reset == r.reset,
        r.reset >= now ==> refresh_step(r, now).0 == r,
        r.reset < now ==> refresh_step(r, now).0.remaining == r.limit,
{
}

/// Asking twice at the same time gives the same answer and leaves the rate
/// limit as the first asking left it.
pub proof fn asking_twice_changes_nothing(r: RateLimit, now: i64)
    ensures
        refresh_step(refresh_step(r, now).0, now) == refresh_step(r, now),
{
}

/// A header byte that a header's text may hold: visible ASCII or a tab.
pub open spec fn is_visible_ascii(b: u8) -> bool {
    (32 <= b && b < 127) || b == 9
}

/// The text of a header's bytes, when each of them is visible ASCII.
pub open spec fn header_text(bytes: Seq<u8>) -> Option<Seq<char>> {
    if forall|i: int| 0 <= i < bytes.len() ==> is_visible_ascii(#[trigger] bytes[i]) {
        Some(bytes.map_values(|b: u8| b as char))
    } else {
        None
    }
}

/// Reads a header value's bytes as text through `http`'s `HeaderValue`.
/// `HeaderValue::from_bytes` accepts bytes that are at least 32 (but 127) or a
/// tab, and `HeaderValue::to_str` yields the text when every byte is visible
/// ASCII; so the text comes back exactly when every byte is visible ASCII, one
/// character per byte.
#[verifier::external_body]
fn header_value_text(bytes: &[u8]) -> (r: Option<String>)
    ensures
        match r {
            Some(s) => header_text(bytes@) == Some(s@),
            None => header_text(bytes@) is None,
        },
{
    match reqwest::header::HeaderValue::from_bytes(bytes) {
        Ok(v) => match v.to_str() {
            Ok(s) => Some(s.to_string()),
            Err(_) => None,
        },
        Err(_) => None,
    }
}

/// Why one rate-limit header could not be read.
#[derive(Clone, Copy, Debug, PartialEq, Eq, Structural)]
pub enum HeaderFailure {
    Missing,
    NotText,
    Parse(IntErrorKind),
}

/// What one rate-limit header gives: its number, or why there is none.
pub open spec fn header_number(h: Option<Seq<u8>>) -> Result<i32, HeaderFailure> {
    match h {
        None => Err(HeaderFailure::Missing),
        Some(bytes) => match header_text(bytes) {
            None => Err(HeaderFailure::NotText),
            Some(t) => match parse_i32_spec(t) {
                Ok(v) => Ok(v as i32),
                Err(k) => Err(HeaderFailure::Parse(k)),
            },
        },
    }
}

/// `e` is the error reported for failure `f` of the header named in `missing`.
pub open spec fn reports(e: Error, f: HeaderFailure, missing: Seq<char>) -> bool {
    match f {
        HeaderFailure::Missing => e matches Error::Generic(ErrorKind::Text(m)) && m@ == missing,
        HeaderFailure::NotText => e matches Error::Generic(ErrorKind::ToStr),
        HeaderFailure::Parse(k) => e matches Error::Generic(ErrorKind::ParseInt(k2)) && k2 == k,
    }
}

fn header_number_of(h: &Option<Vec<u8>>, missing: &str) -> (r: Result<i32, Error>)
    ensures
        match header_number(match h { Some(b) => Some(b@), None => None }) {
            Ok(v) => r == Ok::<i32, Error>(v),
            Err(f) => r matches Err(e) && reports(e, f, missing@),
        },
{
    match h {
        None => Err(Error::Generic(ErrorKind::Text(String::from_str(missing)))),
        Some(bytes) => match header_value_text(bytes.as_slice()) {
            None => Err(Error::Generic(ErrorKind::ToStr)),
            Some(t) => match parse_i32(t.as_str()) {
                Ok(v) => Ok(v),
                Err(k) => Err(Error::Generic(ErrorKind::ParseInt(k))),
            },
        },
    }
}

/// The view of a header's bytes.
pub open spec fn bytes_of(h: Option<Vec<u8>>) -> Option<Seq<u8>> {
    match h {
        Some(b) => Some(b@),
        None => None,
    }
}

impl RateLimit {
    /// Reads a rate limit from the first values of the `x-rate-limit-limit`,
    /// `x-rate-limit-remaining` and `x-rate-limit-reset` headers (`None` where
    /// the response had none). The first header that cannot be read, in that
    /// order, gives the error.
    pub fn from_headers(limit: Option<Vec<u8>>, remaining: Option<Vec<u8>>, reset: Option<Vec<u8>>) -> (r: Result<RateLimit, Error>)
        ensures
            match (header_number(bytes_of(limit)), header_number(bytes_of(remaining)), header_number(bytes_of(reset))) {
                (Ok(l), Ok(m), Ok(s)) => r == Ok::<RateLimit, Error>(RateLimit { limit: l, remaining: m, reset: s }),
                (Err(f), _, _) => r matches Err(e) && reports(e, f, "Couldn't get ratelimit's limit"@),
                (Ok(_), Err(f), _) => r matches Err(e) && reports(e, f, "Couldn't get ratelimit's remaining"@),
                (Ok(_), Ok(_), Err(f)) => r matches Err(e) && reports(e, f, "Couldn't get ratelimit's reset"@),
            },
    {
        let l = match header_number_of(&limit, "Couldn't get ratelimit's limit") {
            Ok(v) => v,
            Err(e) => return Err(e),
        };
        let m = match header_number_of(&remaining, "Couldn't get ratelimit's remaining") {
            Ok(v) => v,
            Err(e) => return Err(e),
        };
        let s = match header_number_of(&reset, "Couldn't get ratelimit's reset") {
            Ok(v) => v,
            Err(e) => return Err(e),
        };
        Ok(RateLimit { limit: l, remaining: m, reset: s })
    }
}

}
