//! Transport settings and decisions: the timeouts that bound every network
//! step, the proxy URL's scheme, the per-request timeout header, and how
//! transport failures are reported.

use vstd::prelude::*;
use vstd::string::*;
use crate::error::{BichonError, BichonResult, ErrorCode};
use crate::text::{decimal, push_decimal};

verus! {

/// Seconds allowed for establishing a connection, directly or by proxy.
pub const CONNECT_TIMEOUT_SECS: u64 = 30;

/// Seconds a read may stall before it fails.
pub const READ_TIMEOUT_SECS: u64 = 30;

/// Seconds a write may stall before it fails.
pub const WRITE_TIMEOUT_SECS: u64 = 15;

/// Seconds an API request may run where its header sets no other bound.
pub const DEFAULT_REQUEST_TIMEOUT_SECS: u64 = 30;

/// The most seconds an API request may run, whatever its header says.
pub const MAX_REQUEST_TIMEOUT_SECS: u64 = 600;

/// The protocols through which a proxy is reached.
#[derive(Clone, Copy, Debug, PartialEq, Eq, Structural)]
pub enum ProxyScheme {
    Socks5,
    Http,
}

/// Whether `c` is the lower-case ASCII character `lower`, or its upper case.
pub open spec fn same_letter(c: char, lower: char) -> bool {
    c == lower || ('a' <= lower <= 'z' && c as u32 == lower as u32 - 32)
}

/// Whether `s` begins with `prefix`, ASCII letters compared without case.
pub open spec fn starts_with_ci(s: Seq<char>, prefix: Seq<char>) -> bool {
    prefix.len() <= s.len() && forall|i: int| 0 <= i < prefix.len() ==> same_letter(s[i], prefix[i])
}

fn starts_with_ignoring_case(s: &str, prefix: &str) -> (r: bool)
    ensures
        r == starts_with_ci(s@, prefix@),
{
    let n = prefix.unicode_len();
    if n > s.unicode_len() {
        return false;
    }
    let mut i: usize = 0;
    while i < n
        invariant
            n == prefix@.len(),
            n <= s@.len(),
            i <= n,
            forall|k: int| 0 <= k < i ==> same_letter(s@[k], prefix@[k]),
        decreases n - i,
    {
        let c = s.get_char(i);
        let l = prefix.get_char(i);
        let same = c == l || ('a' <= l && l <= 'z' && (c as u32) == (l as u32) - 32);
        if !same {
            return false;
        }
        i = i + 1;
    }
    true
}

/// The scheme of a proxy URL and the address after it: `socks5://` or
/// `http://`, in any case. Any other scheme is a configuration error.
pub fn parse_proxy_scheme(input: &str) -> (r: BichonResult<(ProxyScheme, String)>)
    ensures
        r is Ok == (starts_with_ci(input@, "socks5://"@) || starts_with_ci(input@, "http://"@)),
        match r {
            Ok((scheme, rest)) => if starts_with_ci(input@, "socks5://"@) {
                scheme == ProxyScheme::Socks5 && rest@ == input@.subrange(9, input@.len() as int)
            } else {
                scheme == ProxyScheme::Http && rest@ == input@.subrange(7, input@.len() as int)
            },
            Err(e) => e.spec_code() == ErrorCode::InvalidParameter,
        },
{
    proof {
        reveal_strlit("socks5://");
        reveal_strlit("http://");
    }
    let n = input.unicode_len();
    if starts_with_ignoring_case(input, "socks5://") {
        Ok((ProxyScheme::Socks5, input.substring_char(9, n).to_owned()))
    } else if starts_with_ignoring_case(input, "http://") {
        Ok((ProxyScheme::Http, input.substring_char(7, n).to_owned()))
    } else {
        let mut message = String::from_str(
            "invalid proxy URL: must start with 'http://' or 'socks5://', got '",
        );
        message.append(input);
        message.append("'");
        Err(BichonError::new(message, ErrorCode::InvalidParameter))
    }
}

/// The value of a decimal digit.
pub open spec fn digit_value(c: char) -> nat {
    (c as u32 - '0' as u32) as nat
}

pub open spec fn all_digits(s: Seq<char>) -> bool {
    forall|i: int| 0 <= i < s.len() ==> '0' <= #[trigger] s[i] <= '9'
}

/// The number that a string of decimal digits writes.
pub open spec fn digits_value(s: Seq<char>) -> nat
    decreases s.len(),
{
    if s.len() == 0 {
        0
    } else {
        digits_value(s.drop_last()) * 10 + digit_value(s.last())
    }
}

/// What `u64::from_str` reads: an optional `+` and at least one decimal
/// digit, whose value fits in 64 bits.
pub open spec fn parsed_u64(s: Seq<char>) -> Option<u64> {
    let body = if s.len() > 0 && s[0] == '+' {
        s.drop_first()
    } else {
        s
    };
    if body.len() > 0 && all_digits(body) && digits_value(body) <= u64::MAX {
        Some(digits_value(body) as u64)
    } else {
        None
    }
}

/// Reads a `u64` written in decimal, as `u64::from_str` does.
pub fn parse_u64(s: &str) -> (r: Option<u64>)
    ensures
        r == parsed_u64(s@),
{
    let n = s.unicode_len();
    let start: usize = if n > 0 && s.get_char(0) == '+' {
        1
    } else {
        0
    };
    let ghost body = s@.subrange(start as int, n as int);
    assert(body =~= (if s@.len() > 0 && s@[0] == '+' {
        s@.drop_first()
    } else {
        s@
    }));
    if start == n {
        return None;
    }
    let mut value: u64 = 0;
    let mut i: usize = start;
    while i < n
        invariant
            start <= i <= n,
            n == s@.len(),
            body == s@.subrange(start as int, n as int),
            body == (if s@.len() > 0 && s@[0] == '+' {
                s@.drop_first()
            } else {
                s@
            }),
            all_digits(s@.subrange(start as int, i as int)),
            value == digits_value(s@.subrange(start as int, i as int)),
        decreases n - i,
    {
        let c = s.get_char(i);
        let ghost prefix = s@.subrange(start as int, i + 1);
        assert(prefix.drop_last() =~= s@.subrange(start as int, i as int));
        if c < '0' || c > '9' {
            assert(!all_digits(body)) by {
                assert(body[i - start] == c);
            }
            return None;
        }
        let d = (c as u32 - '0' as u32) as u64;
        if value > (u64::MAX - d) / 10 {
            proof {
                assert(digits_value(prefix) > u64::MAX) by (nonlinear_arith)
                    requires
                        digits_value(prefix) == value * 10 + d,
                        value > (u64::MAX - d) / 10,
                        d <= 9,
                ;
                assert(body.subrange(0, i + 1 - start) =~= prefix);
                lemma_digits_grow(body, i + 1 - start);
            }
            return None;
        }
        value = value * 10 + d;
        i = i + 1;
    }
    assert(s@.subrange(start as int, n as int) =~= body);
    Some(value)
}

/// A longer digit string is worth at least as much as its prefix.
proof fn lemma_digits_grow(s: Seq<char>, k: int)
    requires
        0 <= k <= s.len(),
    ensures
        digits_value(s.subrange(0, k)) <= digits_value(s),
    decreases s.len() - k,
{
    if k < s.len() {
        lemma_digits_grow(s, k + 1);
        assert(s.subrange(0, k + 1).drop_last() =~= s.subrange(0, k));
    } else {
        assert(s.subrange(0, k) =~= s);
    }
}

/// The seconds an API request may run: what its timeout header says, or
/// the default where the header is absent or unreadable, never more than
/// the maximum.
pub open spec fn request_timeout(header: Option<Seq<char>>) -> u64 {
    let asked = match header {
        Some(h) => match parsed_u64(h) {
            Some(v) => v,
            None => DEFAULT_REQUEST_TIMEOUT_SECS,
        },
        None => DEFAULT_REQUEST_TIMEOUT_SECS,
    };
    if asked < MAX_REQUEST_TIMEOUT_SECS {
        asked
    } else {
        MAX_REQUEST_TIMEOUT_SECS
    }
}

/// The seconds an API request may run, given its timeout header.
pub fn effective_request_timeout(header: Option<&str>) -> (r: u64)
    ensures
        r == request_timeout(
            match header {
                Some(h) => Some(h@),
                None => None,
            },
        ),
{
    let asked = match header {
        Some(h) => match parse_u64(h) {
            Some(v) => v,
            None => DEFAULT_REQUEST_TIMEOUT_SECS,
        },
        None => DEFAULT_REQUEST_TIMEOUT_SECS,
    };
    if asked < MAX_REQUEST_TIMEOUT_SECS {
        asked
    } else {
        MAX_REQUEST_TIMEOUT_SECS
    }
}

/// The message of a connection that did not complete in time.
pub open spec fn connect_timeout_message(target: Seq<char>, proxy: Option<Seq<char>>) -> Seq<char> {
    match proxy {
        Some(p) => "SOCKS5 proxy connection to "@ + target + " via "@ + p + " timed out after "@
            + decimal(CONNECT_TIMEOUT_SECS as nat) + "s"@,
        None => "TCP connection to "@ + target + " timed out after "@ + decimal(
            CONNECT_TIMEOUT_SECS as nat,
        ) + "s"@,
    }
}

/// The error of a connection to `target` (through the proxy at `proxy`,
/// where there is one) that did not complete within the connect timeout.
pub fn connect_timeout_error(target: &str, proxy: Option<&str>) -> (r: BichonError)
    ensures
        r.spec_code() == ErrorCode::ConnectionTimeout,
        r.spec_message() == connect_timeout_message(
            target@,
            match proxy {
                Some(p) => Some(p@),
                None => None,
            },
        ),
{
    let mut message = match proxy {
        Some(p) => {
            let mut m = String::from_str("SOCKS5 proxy connection to ");
            m.append(target);
            m.append(" via ");
            m.append(p);
            m
        },
        None => {
            let mut m = String::from_str("TCP connection to ");
            m.append(target);
            m
        },
    };
    message.append(" timed out after ");
    push_decimal(&mut message, CONNECT_TIMEOUT_SECS);
    message.append("s");
    BichonError::new(message, ErrorCode::ConnectionTimeout)
}

/// The error of a failed transport step: a stall past its timeout is a
/// `ConnectionTimeout`, any other failure a `NetworkError`.
pub fn transport_error(timed_out: bool, detail: String) -> (r: BichonError)
    ensures
        r.spec_code() == if timed_out {
            ErrorCode::ConnectionTimeout
        } else {
            ErrorCode::NetworkError
        },
        r.spec_message() == detail@,
{
    if timed_out {
        BichonError::new(detail, ErrorCode::ConnectionTimeout)
    } else {
        BichonError::new(detail, ErrorCode::NetworkError)
    }
}

/// The middleware that bounds each API request by its timeout header.
pub struct Timeout;

/// An endpoint wrapped by `Timeout`.
pub struct TimeoutEndpoint<E> {
    pub ep: E,
}

impl Timeout {
    /// Wraps an endpoint.
    pub fn transform<E>(&self, ep: E) -> (r: TimeoutEndpoint<E>)
        ensures
            r.ep == ep,
    {
        TimeoutEndpoint { ep }
    }
}

impl<E> TimeoutEndpoint<E> {
    /// The seconds that a request with this timeout header may run.
    pub fn deadline_secs(&self, header: Option<&str>) -> (r: u64)
        ensures
            r == request_timeout(
                match header {
                    Some(h) => Some(h@),
                    None => None,
                },
            ),
    {
        effective_request_timeout(header)
    }
}

} // verus!
