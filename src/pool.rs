//! The bookkeeping of a bounded pool of authenticated sessions for one
//! account. Opening and closing sessions is I/O and happens outside; the
//! pool decides whether a caller reuses an idle session, opens a new one,
//! or waits, and what becomes of a session handed back.

use vstd::prelude::*;

verus! {

/// What a caller that asks for a session is told.
pub enum Acquire<S> {
    /// Use this idle session.
    Reuse(S),
    /// A slot is reserved: open a new session, or give the slot back with
    /// `abandon` where opening fails.
    Create,
    /// Every slot is taken: wait for a release.
    Exhausted,
}

/// A pool of at most `capacity` sessions: idle ones, and ones in use.
#[derive(Debug)]
#[verifier::reject_recursive_types(S)]
pub struct SessionPool<S> {
    capacity: usize,
    idle: Vec<S>,
    in_use: usize,
}

impl<S> SessionPool<S> {
    pub closed spec fn spec_capacity(&self) -> nat {
        self.capacity as nat
    }

    /// The idle sessions; the last one is handed out first.
    pub closed spec fn spec_idle(&self) -> Seq<S> {
        self.idle@
    }

    /// The sessions handed out and not yet given back, and the slots
    /// reserved for sessions being opened.
    pub closed spec fn spec_in_use(&self) -> nat {
        self.in_use as nat
    }

    /// Never more sessions than the capacity, and at least one slot.
    pub closed spec fn wf(&self) -> bool {
        &&& self.capacity > 0
        &&& self.idle@.len() + self.in_use <= self.capacity
    }

    /// An empty pool with room for `capacity` sessions.
    pub fn new(capacity: usize) -> (r: Self)
        requires
            capacity > 0,
        ensures
            r.wf(),
            r.spec_capacity() == capacity,
            r.spec_idle() == Seq::<S>::empty(),
            r.spec_in_use() == 0,
    {
        SessionPool { capacity, idle: Vec::new(), in_use: 0 }
    }

    pub fn capacity(&self) -> (r: usize)
        ensures
            r == self.spec_capacity(),
    {
        self.capacity
    }

    pub fn in_use(&self) -> (r: usize)
        ensures
            r == self.spec_in_use(),
    {
        self.in_use
    }

    pub fn idle_count(&self) -> (r: usize)
        ensures
            r == self.spec_idle().len(),
    {
        self.idle.len()
    }

    /// Hands out an idle session where there is one; else reserves a slot
    /// where the capacity allows; else reports the pool exhausted.
    pub fn acquire(&mut self) -> (r: Acquire<S>)
        requires
            old(self).wf(),
        ensures
            final(self).wf(),
            final(self).spec_capacity() == old(self).spec_capacity(),
            match r {
                Acquire::Reuse(s) => {
                    &&& old(self).spec_idle().len() > 0
                    &&& s == old(self).spec_idle().last()
                    &&& final(self).spec_idle() == old(self).spec_idle().drop_last()
                    &&& final(self).spec_in_use() == old(self).spec_in_use() + 1
                },
                Acquire::Create => {
                    &&& old(self).spec_idle().len() == 0
                    &&& old(self).spec_in_use() < old(self).spec_capacity()
                    &&& final(self).spec_idle() == old(self).spec_idle()
                    &&& final(self).spec_in_use() == old(self).spec_in_use() + 1
                },
                Acquire::Exhausted => {
                    &&& old(self).spec_idle().len() == 0
                    &&& old(self).spec_in_use() == old(self).spec_capacity()
                    &&& final(self).spec_idle() == old(self).spec_idle()
                    &&& final(self).spec_in_use() == old(self).spec_in_use()
                },
            },
    {
        match self.idle.pop() {
            Some(s) => {
                self.in_use = self.in_use + 1;
                Acquire::Reuse(s)
            },
            None => if self.in_use < self.capacity {
                self.in_use = self.in_use + 1;
                Acquire::Create
            } else {
                Acquire::Exhausted
            },
        }
    }

    /// Takes back a session: a healthy one becomes idle, one that failed in
    /// use is dropped so that it is never handed out again.
    pub fn release(&mut self, session: S, healthy: bool)
        requires
            old(self).wf(),
            old(self).spec_in_use() > 0,
        ensures
            final(self).wf(),
            final(self).spec_capacity() == old(self).spec_capacity(),
            final(self).spec_in_use() == old(self).spec_in_use() - 1,
            final(self).spec_idle() == if healthy {
                old(self).spec_idle().push(session)
            } else {
                old(self).spec_idle()
            },
    {
        self.in_use = self.in_use - 1;
        if healthy {
            self.idle.push(session);
        }
    }

    /// Gives back a slot reserved by `acquire` whose session could not be
    /// opened.
    pub fn abandon(&mut self)
        requires
            old(self).wf(),
            old(self).spec_in_use() > 0,
        ensures
            final(self).wf(),
            final(self).spec_capacity() == old(self).spec_capacity(),
            final(self).spec_in_use() == old(self).spec_in_use() - 1,
            final(self).spec_idle() == old(self).spec_idle(),
    {
        self.in_use = self.in_use - 1;
    }
}

} // verus!
