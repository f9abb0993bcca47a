//! Mailbox names as the server sends them (IMAP's modified UTF-7) and as
//! people read them.

use vstd::prelude::*;
use vstd::string::*;

verus! {

/// What `utf7_imap::encode_utf7_imap` gives for a readable name.
pub uninterp spec fn utf7_encoded(name: Seq<char>) -> Seq<char>;

/// What `utf7_imap::decode_utf7_imap` gives for a server-side name.
pub uninterp spec fn utf7_decoded(raw: Seq<char>) -> Seq<char>;

/// The value of a base64 symbol, `,` standing for `/`.
pub open spec fn b64_value(c: char) -> int {
    if 'A' <= c <= 'Z' {
        c as int - 'A' as int
    } else if 'a' <= c <= 'z' {
        c as int - 'a' as int + 26
    } else if '0' <= c <= '9' {
        c as int - '0' as int + 52
    } else if c == '+' {
        62
    } else if c == '/' || c == ',' {
        63
    } else {
        -1
    }
}

/// A base64 run between `&` and `-` that decodes: only base64 symbols, a
/// length that is not one more than a multiple of four, and no bits set
/// past the last whole byte.
pub open spec fn payload_ok(p: Seq<char>) -> bool {
    p.len() == 0 || {
        &&& forall|i: int| 0 <= i < p.len() ==> b64_value(#[trigger] p[i]) >= 0
        &&& p.len() % 4 != 1
        &&& p.len() % 4 == 2 ==> b64_value(p.last()) % 16 == 0
        &&& p.len() % 4 == 3 ==> b64_value(p.last()) % 4 == 0
    }
}

/// Whether every encoded run of `s` from `pos` on decodes; `open` is where
/// the payload of a run opened by `&` (and not yet closed by `-`) starts.
pub open spec fn runs_ok(s: Seq<char>, pos: int, open: Option<int>) -> bool
    decreases s.len() - pos,
{
    if pos >= s.len() {
        true
    } else {
        match open {
            None => if s[pos] == '&' {
                runs_ok(s, pos + 1, Some(pos + 1))
            } else {
                runs_ok(s, pos + 1, None)
            },
            Some(a) => if s[pos] == '-' {
                payload_ok(s.subrange(a, pos)) && runs_ok(s, pos + 1, None)
            } else {
                runs_ok(s, pos + 1, Some(a))
            },
        }
    }
}

/// Whether a server-side name decodes: each `&...-` run is `&-` or holds
/// base64 that decodes.
pub open spec fn utf7_decodable(raw: Seq<char>) -> bool {
    runs_ok(raw, 0, None)
}

/// The readable form of a server-side name: decoded where it decodes, else
/// the name as sent.
pub open spec fn readable_name(raw: Seq<char>) -> Seq<char> {
    if utf7_decodable(raw) {
        utf7_decoded(raw)
    } else {
        raw
    }
}

/// Relies on `utf7_imap::encode_utf7_imap`: the result depends on the name
/// alone, and the call never panics.
#[verifier::external_body]
fn encode_utf7(name: &str) -> (r: String)
    ensures
        r@ == utf7_encoded(name@),
{
    utf7_imap::encode_utf7_imap(name.to_string())
}

/// Relies on `utf7_imap::decode_utf7_imap`: the result depends on the name
/// alone. It unwraps the base64 decoding of each run, so it is only called
/// where every run decodes.
#[verifier::external_body]
fn decode_utf7(raw: &str) -> (r: String)
    requires
        utf7_decodable(raw@),
    ensures
        r@ == utf7_decoded(raw@),
{
    utf7_imap::decode_utf7_imap(raw.to_string())
}

fn b64_symbol(c: char) -> (r: i32)
    ensures
        r == b64_value(c),
{
    if 'A' <= c && c <= 'Z' {
        (c as u32 - 'A' as u32) as i32
    } else if 'a' <= c && c <= 'z' {
        (c as u32 - 'a' as u32 + 26) as i32
    } else if '0' <= c && c <= '9' {
        (c as u32 - '0' as u32 + 52) as i32
    } else if c == '+' {
        62
    } else if c == '/' || c == ',' {
        63
    } else {
        -1
    }
}

fn payload_decodes(s: &str, a: usize, b: usize) -> (r: bool)
    requires
        a <= b <= s@.len(),
    ensures
        r == payload_ok(s@.subrange(a as int, b as int)),
{
    let ghost p = s@.subrange(a as int, b as int);
    let n = b - a;
    if n == 0 {
        return true;
    }
    let mut i: usize = a;
    while i < b
        invariant
            a <= i <= b <= s@.len(),
            p == s@.subrange(a as int, b as int),
            forall|k: int| 0 <= k < i - a ==> b64_value(#[trigger] p[k]) >= 0,
        decreases b - i,
    {
        if b64_symbol(s.get_char(i)) < 0 {
            assert(b64_value(p[i - a]) < 0);
            return false;
        }
        i = i + 1;
    }
    let last = b64_symbol(s.get_char(b - 1));
    assert(p.last() == s@[b - 1]);
    if n % 4 == 1 {
        false
    } else if n % 4 == 2 {
        last % 16 == 0
    } else if n % 4 == 3 {
        last % 4 == 0
    } else {
        true
    }
}

/// Whether a server-side name decodes.
pub fn is_utf7_decodable(raw: &str) -> (r: bool)
    ensures
        r == utf7_decodable(raw@),
{
    let n = raw.unicode_len();
    let mut open: Option<usize> = None;
    let mut i: usize = 0;
    while i < n
        invariant
            n == raw@.len(),
            i <= n,
            match open {
                Some(a) => a <= i,
                None => true,
            },
            utf7_decodable(raw@) == runs_ok(
                raw@,
                i as int,
                match open {
                    Some(a) => Some(a as int),
                    None => None,
                },
            ),
        decreases n - i,
    {
        let c = raw.get_char(i);
        match open {
            None => {
                if c == '&' {
                    open = Some(i + 1);
                }
            },
            Some(a) => {
                if c == '-' {
                    if !payload_decodes(raw, a, i) {
                        return false;
                    }
                    open = None;
                }
            },
        }
        i = i + 1;
    }
    true
}

/// The readable form of a name as the server sends it.
pub fn decode_mailbox_name(raw: &str) -> (r: String)
    ensures
        r@ == readable_name(raw@),
{
    if is_utf7_decodable(raw) {
        decode_utf7(raw)
    } else {
        raw.to_owned()
    }
}

/// The server-side form of a readable name.
pub fn encode_mailbox_name(name: &str) -> (r: String)
    ensures
        r@ == utf7_encoded(name@),
{
    encode_utf7(name)
}

} // verus!
