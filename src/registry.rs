//! The executor registry: at most one shared executor per account, created
//! lazily. Building an executor (network I/O) happens outside the map; the
//! insertion then either wins, or loses to a concurrent caller and the fresh
//! executor is dropped in favour of the one already stored.

use vstd::prelude::*;
use std::sync::Arc;
use dashmap::DashMap;
use crate::error::{BichonError, BichonResult, ErrorCode};

verus! {

#[verifier::external_type_specification]
#[verifier::external_body]
#[verifier::reject_recursive_types(K)]
#[verifier::reject_recursive_types(V)]
#[verifier::reject_recursive_types(S)]
pub struct ExDashMap<K, V, S>(DashMap<K, V, S>);

/// What an attempt to store a fresh executor found.
pub enum EntryOutcome<E> {
    /// Another executor was stored first; it is handed back.
    Existing(Arc<E>),
    /// The fresh executor was stored.
    Inserted,
    /// The map's shard was locked, so nothing was stored.
    Locked,
}

/// Relies on `DashMap::new`: an empty map.
#[verifier::external_body]
fn empty_map<E>() -> DashMap<u64, Arc<E>> {
    DashMap::new()
}

/// Relies on `DashMap::get`: a clone of the handle stored for `id`, if any.
/// The map is shared, so nothing is promised of what it holds.
#[verifier::external_body]
fn lookup<E>(map: &DashMap<u64, Arc<E>>, id: u64) -> Option<Arc<E>> {
    map.get(&id).map(|e| e.value().clone())
}

/// Relies on `DashMap::try_entry` and `VacantEntry::insert`: stores `fresh`
/// under `id` where the entry is vacant (under the shard's lock), hands back
/// the stored handle where it is occupied, and gives up where the shard is
/// locked.
#[verifier::external_body]
fn try_insert<E>(map: &DashMap<u64, Arc<E>>, id: u64, fresh: Arc<E>) -> EntryOutcome<E> {
    match map.try_entry(id) {
        Some(dashmap::Entry::Occupied(e)) => EntryOutcome::Existing(e.get().clone()),
        Some(dashmap::Entry::Vacant(e)) => {
            e.insert(fresh);
            EntryOutcome::Inserted
        },
        None => EntryOutcome::Locked,
    }
}

/// Relies on `DashMap::remove`: whether an entry for `id` was removed.
#[verifier::external_body]
fn remove_entry<E>(map: &DashMap<u64, Arc<E>>, id: u64) -> bool {
    map.remove(&id).is_some()
}

/// The handle that a caller receives once the insertion attempt is over:
/// the stored one where another caller won, the fresh one where this caller
/// did; `InternalError` where the map was locked.
pub fn settle<E>(outcome: EntryOutcome<E>, fresh: Arc<E>) -> (r: BichonResult<Arc<E>>)
    ensures
        match outcome {
            EntryOutcome::Existing(h) => r == Ok::<Arc<E>, BichonError>(h),
            EntryOutcome::Inserted => r == Ok::<Arc<E>, BichonError>(fresh),
            EntryOutcome::Locked => r matches Err(e) && e.spec_code() == ErrorCode::InternalError,
        },
{
    match outcome {
        EntryOutcome::Existing(h) => Ok(h),
        EntryOutcome::Inserted => Ok(fresh),
        EntryOutcome::Locked => Err(
            BichonError::new("executor map locked".to_owned(), ErrorCode::InternalError),
        ),
    }
}

/// The process's executors, one per account, and the time it started.
#[verifier::reject_recursive_types(E)]
pub struct EmailClientExecutors<E> {
    start_at: i64,
    imap: DashMap<u64, Arc<E>>,
}

impl<E> EmailClientExecutors<E> {
    pub closed spec fn started(&self) -> i64 {
        self.start_at
    }

    /// An empty registry for a process that started at `start_at`
    /// (milliseconds since the epoch).
    pub fn new(start_at: i64) -> (r: Self)
        ensures
            r.started() == start_at,
    {
        EmailClientExecutors { start_at, imap: empty_map() }
    }

    /// When the process started (milliseconds since the epoch).
    pub fn start_at(&self) -> (r: i64)
        ensures
            r == self.started(),
    {
        self.start_at
    }

    /// Milliseconds between the start and `now`.
    pub fn uptime_ms(&self, now: i64) -> (r: i64)
        requires
            i64::MIN <= now - self.started() <= i64::MAX,
        ensures
            r == now - self.started(),
    {
        now - self.start_at
    }

    /// The executor stored for the account, if any.
    pub fn cached(&self, account_id: u64) -> Option<Arc<E>> {
        lookup(&self.imap, account_id)
    }

    /// Stores `fresh` as the account's executor unless another caller stored
    /// one first; returns whichever is stored. Fails with `InternalError`
    /// only where the map was locked.
    pub fn install(&self, account_id: u64, fresh: Arc<E>) -> (r: BichonResult<Arc<E>>)
        ensures
            r matches Err(e) ==> e.spec_code() == ErrorCode::InternalError,
    {
        let keep = fresh.clone();
        let outcome = try_insert(&self.imap, account_id, fresh);
        settle(outcome, keep)
    }

    /// Drops the account's executor, and with it its connection pool.
    pub fn clean_account(&self, account_id: u64) -> (r: BichonResult<()>)
        ensures
            r is Ok,
    {
        let _removed = remove_entry(&self.imap, account_id);
        Ok(())
    }
}


} // verus!
