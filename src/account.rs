//! Account-level decisions: which accounts synchronise, whether an account
//! may have a connection pool, and where its mailbox list comes from.

use vstd::prelude::*;
use crate::error::{BichonError, BichonResult, ErrorCode};

verus! {

/// The protocols an account may use.
#[derive(Clone, Copy, Debug, PartialEq, Eq, Structural)]
pub enum AccountType {
    Imap,
    NoSync,
}

/// What the registry reads of an account.
pub struct AccountSummary {
    pub id: u64,
    pub email: String,
    pub enabled: bool,
    pub account_type: AccountType,
}

/// Whether an account's synchroniser starts with the process.
pub open spec fn starts_syncing(a: AccountSummary) -> bool {
    a.enabled && a.account_type == AccountType::Imap
}

/// The ids and addresses of the accounts whose synchronisers start with the
/// process: the enabled accounts of the session protocol, in order.
pub fn active_accounts(accounts: &Vec<AccountSummary>) -> (r: Vec<(u64, String)>)
    ensures
        r@.map_values(|p: (u64, String)| (p.0, p.1@)) == accounts@.filter(
            |a: AccountSummary| starts_syncing(a),
        ).map_values(|a: AccountSummary| (a.id, a.email@)),
{
    let ghost av = accounts@;
    let mut out: Vec<(u64, String)> = Vec::new();
    let mut i: usize = 0;
    while i < accounts.len()
        invariant
            i <= accounts.len(),
            av == accounts@,
            out@.map_values(|p: (u64, String)| (p.0, p.1@)) == av.take(i as int).filter(
                |a: AccountSummary| starts_syncing(a),
            ).map_values(|a: AccountSummary| (a.id, a.email@)),
        decreases accounts.len() - i,
    {
        proof {
            assert(av.take(i + 1) =~= av.take(i as int).push(av[i as int]));
            av.take(i as int).lemma_filter_push(av[i as int], |a: AccountSummary| starts_syncing(a));
        }
        let a = &accounts[i];
        if a.enabled && a.account_type == AccountType::Imap {
            let ghost before = av.take(i as int).filter(|a: AccountSummary| starts_syncing(a));
            let ghost prev = out@;
            out.push((a.id, a.email.clone()));
            assert(out@.map_values(|p: (u64, String)| (p.0, p.1@)) =~= prev.map_values(
                |p: (u64, String)| (p.0, p.1@),
            ).push((a.id, a.email@)));
            assert(before.push(av[i as int]).map_values(|a: AccountSummary| (a.id, a.email@))
                =~= before.map_values(|a: AccountSummary| (a.id, a.email@)).push(
                (a.id, a.email@),
            ));
        }
        i = i + 1;
    }
    assert(av.take(accounts.len() as int) =~= av);
    out
}

/// Checks, before any network I/O, that a connection pool may be built for
/// `account`: a missing account is an `InternalError`; a disabled one, or
/// one of another protocol, an `InvalidParameter`.
pub fn ensure_pool_account(account: Option<&AccountSummary>) -> (r: BichonResult<()>)
    ensures
        match account {
            None => r matches Err(e) && e.spec_code() == ErrorCode::InternalError,
            Some(a) => if starts_syncing(*a) {
                r is Ok
            } else {
                r matches Err(e) && e.spec_code() == ErrorCode::InvalidParameter
            },
        },
{
    match account {
        None => Err(BichonError::new("account not found".to_owned(), ErrorCode::InternalError)),
        Some(a) => if !a.enabled {
            Err(BichonError::new("account is disabled".to_owned(), ErrorCode::InvalidParameter))
        } else if a.account_type != AccountType::Imap {
            Err(
                BichonError::new(
                    "only IMAP accounts have connection pools".to_owned(),
                    ErrorCode::InvalidParameter,
                ),
            )
        } else {
            Ok(())
        },
    }
}

/// Where an account's mailbox list is read from.
#[derive(Clone, Copy, Debug, PartialEq, Eq, Structural)]
pub enum MailboxSource {
    /// A fresh listing from the server.
    Remote,
    /// The mailbox cache.
    Cache,
}

/// Where to read the mailboxes of `account` from: the cache, or the server
/// where `remote` asks for it, which only IMAP accounts allow.
pub fn mailbox_source(account: &AccountSummary, remote: bool) -> (r: BichonResult<MailboxSource>)
    ensures
        !remote ==> r == Ok::<MailboxSource, BichonError>(MailboxSource::Cache),
        remote && account.account_type == AccountType::Imap ==> r == Ok::<
            MailboxSource,
            BichonError,
        >(MailboxSource::Remote),
        remote && account.account_type != AccountType::Imap ==> (r matches Err(e) && e.spec_code()
            == ErrorCode::InvalidParameter),
{
    if !remote {
        Ok(MailboxSource::Cache)
    } else if account.account_type == AccountType::Imap {
        Ok(MailboxSource::Remote)
    } else {
        Err(
            BichonError::new(
                "the 'remote' option can only be used with IMAP accounts".to_owned(),
                ErrorCode::InvalidParameter,
            ),
        )
    }
}

} // verus!
