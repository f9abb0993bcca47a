//! Server capabilities.

use vstd::prelude::*;
use vstd::string::*;
use crate::error::{BichonError, BichonResult, ErrorCode};

verus! {

/// A capability that a server announces.
#[derive(Clone, Debug, PartialEq, Eq)]
pub enum Capability {
    /// The base protocol revision that the core needs.
    Imap4rev1,
    /// An authentication mechanism.
    Auth(String),
    /// Any other capability.
    Atom(String),
}

/// The text by which a capability is announced.
pub open spec fn capability_text(c: Capability) -> Seq<char> {
    match c {
        Capability::Imap4rev1 => "IMAP4rev1"@,
        Capability::Auth(v) => "AUTH="@ + v@,
        Capability::Atom(v) => v@,
    }
}

pub fn capability_to_string(capability: &Capability) -> (r: String)
    ensures
        r@ == capability_text(*capability),
{
    match capability {
        Capability::Imap4rev1 => String::from_str("IMAP4rev1"),
        Capability::Auth(v) => {
            let mut s = String::from_str("AUTH=");
            s.append(v.as_str());
            s
        },
        Capability::Atom(v) => v.clone(),
    }
}

/// Succeeds where the server announces the base protocol revision; fails
/// with `Incompatible` where it does not.
pub fn check_capabilities(capabilities: &Vec<Capability>) -> (r: BichonResult<()>)
    ensures
        r is Ok == exists|i: int|
            0 <= i < capabilities@.len() && capabilities@[i] is Imap4rev1,
        r matches Err(e) ==> e.spec_code() == ErrorCode::Incompatible,
{
    let mut i: usize = 0;
    while i < capabilities.len()
        invariant
            i <= capabilities@.len(),
            forall|k: int| 0 <= k < i ==> !(capabilities@[k] is Imap4rev1),
        decreases capabilities.len() - i,
    {
        if let Capability::Imap4rev1 = &capabilities[i] {
            return Ok(());
        }
        i = i + 1;
    }
    Err(BichonError::new("server does not support IMAP4rev1".to_owned(), ErrorCode::Incompatible))
}

} // verus!
