//! The mailbox cache: the mailbox rows of every account, keyed by id.

use vstd::prelude::*;
use vstd::seq_lib::group_seq_properties;
use crate::error::{BichonError, BichonResult, ErrorCode};
use crate::mailbox::{lemma_filter_equiv, views, MailBox, MailBoxView};
use crate::text::starts_with_text;

verus! {

broadcast use group_seq_properties, Seq::lemma_filter_push;

/// No two rows share an id.
pub open spec fn ids_unique(rows: Seq<MailBoxView>) -> bool {
    forall|i: int, j: int| 0 <= i < j < rows.len() ==> rows[i].id != rows[j].id
}

/// Some row has the id `id`.
pub open spec fn has_id(rows: Seq<MailBoxView>, id: u64) -> bool {
    exists|i: int| 0 <= i < rows.len() && rows[i].id == id
}

/// Whether `name` begins with `prefix`.
pub open spec fn starts_with(name: Seq<char>, prefix: Seq<char>) -> bool {
    prefix.len() <= name.len() && name.subrange(0, prefix.len() as int) == prefix
}

/// Whether deleting folder `id`, whose sub-folders' names begin with
/// `prefix` (its name and delimiter), takes `m` with it.
pub open spec fn in_cascade(m: MailBoxView, id: u64, prefix: Seq<char>) -> bool {
    m.id == id || starts_with(m.name, prefix)
}

/// The rows that a removal takes.
pub enum Removal {
    /// The row with this id.
    Id(u64),
    /// Every row of this account.
    Account(u64),
    /// The rows of an account that a folder deletion cascades to.
    Cascade { account_id: u64, id: u64, prefix: String },
}

pub open spec fn removes(r: Removal, m: MailBoxView) -> bool {
    match r {
        Removal::Id(id) => m.id == id,
        Removal::Account(a) => m.account_id == a,
        Removal::Cascade { account_id, id, prefix } => m.account_id == account_id && in_cascade(
            m,
            id,
            prefix@,
        ),
    }
}

/// Upserts one row: it replaces the row with its id, or is appended.
pub open spec fn upsert_one(rows: Seq<MailBoxView>, m: MailBoxView) -> Seq<MailBoxView> {
    if has_id(rows, m.id) {
        Seq::new(rows.len(), |j: int| if rows[j].id == m.id { m } else { rows[j] })
    } else {
        rows.push(m)
    }
}

/// Upserts the rows of `batch` one after the other.
pub open spec fn upsert_all(rows: Seq<MailBoxView>, batch: Seq<MailBoxView>) -> Seq<MailBoxView>
    decreases batch.len(),
{
    if batch.len() == 0 {
        rows
    } else {
        upsert_one(upsert_all(rows, batch.drop_last()), batch.last())
    }
}

/// Whether `batch` can be inserted: its ids are unique and none is taken.
pub open spec fn insertable(rows: Seq<MailBoxView>, batch: Seq<MailBoxView>) -> bool {
    ids_unique(batch) && forall|i: int| 0 <= i < batch.len() ==> !has_id(rows, #[trigger] batch[i].id)
}


/// The prefix of the names of a folder's sub-folders: its name followed by
/// its delimiter, `/` where it has none.
pub open spec fn cascade_prefix(m: MailBoxView) -> Seq<char> {
    m.name + match m.delimiter {
        Some(d) => d,
        None => "/"@,
    }
}

/// The rows of account `account_id` that deleting folder `id` takes.
pub open spec fn cascade_rows(rows: Seq<MailBoxView>, account_id: u64, id: u64, prefix: Seq<char>) -> Seq<MailBoxView> {
    rows.filter(|m: MailBoxView| m.account_id == account_id && in_cascade(m, id, prefix))
}

/// The ids of a list of rows.
pub open spec fn ids_of(rows: Seq<MailBoxView>) -> Seq<u64> {
    rows.map_values(|m: MailBoxView| m.id)
}

/// The mailbox rows of every account. Ids are unique.
#[derive(Debug)]
pub struct MailboxStore {
    rows: Vec<MailBox>,
}

impl MailboxStore {
    /// The rows, in the order in which they were stored.
    pub closed spec fn rows(&self) -> Seq<MailBoxView> {
        views(self.rows@)
    }

    pub closed spec fn wf(&self) -> bool {
        ids_unique(self.rows())
    }

    pub fn new() -> (r: Self)
        ensures
            r.wf(),
            r.rows() == Seq::<MailBoxView>::empty(),
    {
        let r = MailboxStore { rows: Vec::new() };
        assert(r.rows() =~= Seq::<MailBoxView>::empty());
        r
    }

    fn position_of(&self, id: u64) -> (r: Option<usize>)
        ensures
            match r {
                Some(j) => j < self.rows().len() && self.rows()[j as int].id == id,
                None => !has_id(self.rows(), id),
            },
    {
        let mut i: usize = 0;
        while i < self.rows.len()
            invariant
                i <= self.rows@.len(),
                forall|k: int| 0 <= k < i ==> self.rows()[k].id != id,
            decreases self.rows.len() - i,
        {
            if self.rows[i].id == id {
                return Some(i);
            }
            i = i + 1;
        }
        None
    }

    fn removes_row(r: &Removal, m: &MailBox) -> (b: bool)
        ensures
            b == removes(*r, m@),
    {
        match r {
            Removal::Id(id) => m.id == *id,
            Removal::Account(a) => m.account_id == *a,
            Removal::Cascade { account_id, id, prefix } => m.account_id == *account_id && (m.id
                == *id || starts_with_text(m.name.as_str(), prefix.as_str())),
        }
    }

    /// Removes the rows that `removal` takes; the others keep their order.
    pub fn remove_where(&mut self, removal: &Removal)
        requires
            old(self).wf(),
        ensures
            final(self).wf(),
            final(self).rows() == old(self).rows().filter(|m: MailBoxView| !removes(*removal, m)),
    {
        let ghost orig = self.rows();
        let ghost n: int = orig.len() as int;
        let ghost mut k: int = 0;
        let mut i: usize = 0;
        proof {
            assert(orig.take(0) =~= Seq::<MailBoxView>::empty());
            assert(self.rows() =~= orig.take(0).filter(|m: MailBoxView| !removes(*removal, m))
                + orig.subrange(0, n));
        }
        while i < self.rows.len()
            invariant
                0 <= k <= n,
                n == orig.len(),
                ids_unique(self.rows()),
                self.rows() == orig.take(k).filter(|m: MailBoxView| !removes(*removal, m))
                    + orig.subrange(k, n),
                i == orig.take(k).filter(|m: MailBoxView| !removes(*removal, m)).len(),
            decreases self.rows.len() - i,
        {
            let ghost kept = orig.take(k).filter(|m: MailBoxView| !removes(*removal, m));
            assert(orig.take(k + 1) =~= orig.take(k).push(orig[k]));
            assert(self.rows()[i as int] == orig[k]);
            if Self::removes_row(removal, &self.rows[i]) {
                let ghost before = self.rows@;
                self.rows.remove(i);
                assert(self.rows() =~= views(before).remove(i as int));
                assert(self.rows() =~= kept + orig.subrange(k + 1, n));
            } else {
                assert(self.rows() =~= kept.push(orig[k]) + orig.subrange(k + 1, n));
                i = i + 1;
            }
            proof {
                k = k + 1;
            }
        }
        assert(orig.take(n) =~= orig);
        assert(self.rows() =~= orig.filter(|m: MailBoxView| !removes(*removal, m)));
    }

    /// Upserts one mailbox: it replaces the row with its id, or is appended.
    pub fn upsert(&mut self, m: &MailBox)
        requires
            old(self).wf(),
        ensures
            final(self).wf(),
            final(self).rows() == upsert_one(old(self).rows(), m@),
    {
        let c = m.duplicate();
        let ghost before = self.rows();
        match self.position_of(m.id) {
            Some(j) => {
                self.rows.set(j, c);
                assert(self.rows() =~= upsert_one(before, m@));
            },
            None => {
                let ghost b = self.rows@;
                self.rows.push(c);
                assert(self.rows() =~= views(b).push(c@));
            },
        }
    }

    fn cascade_targets(&self, removal: &Removal) -> (r: Vec<u64>)
        ensures
            r@ == ids_of(self.rows().filter(|m: MailBoxView| removes(*removal, m))),
    {
        let ghost rv = self.rows();
        let mut out: Vec<u64> = Vec::new();
        let mut i: usize = 0;
        while i < self.rows.len()
            invariant
                i <= self.rows@.len(),
                rv == self.rows(),
                out@ == ids_of(rv.take(i as int).filter(|m: MailBoxView| removes(*removal, m))),
            decreases self.rows.len() - i,
        {
            assert(rv.take(i + 1) =~= rv.take(i as int).push(rv[i as int]));
            if Self::removes_row(removal, &self.rows[i]) {
                let ghost before = rv.take(i as int).filter(|m: MailBoxView| removes(*removal, m));
                out.push(self.rows[i].id);
                assert(ids_of(before.push(rv[i as int])) =~= ids_of(before).push(rv[i as int].id));
            }
            i = i + 1;
        }
        assert(rv.take(self.rows@.len() as int) =~= rv);
        out
    }

}

impl MailBox {
    /// The mailbox with id `id`; fails with `InternalError` where there is
    /// none.
    pub fn get(store: &MailboxStore, id: u64) -> (r: BichonResult<MailBox>)
        requires
            store.wf(),
        ensures
            r is Ok == has_id(store.rows(), id),
            match r {
                Ok(m) => exists|i: int| 0 <= i < store.rows().len() && store.rows()[i].id == id
                    && m@ == store.rows()[i],
                Err(e) => e.spec_code() == ErrorCode::InternalError,
            },
    {
        match store.position_of(id) {
            Some(j) => Ok(store.rows[j].duplicate()),
            None => Err(BichonError::new("mailbox not found".to_owned(), ErrorCode::InternalError)),
        }
    }

    /// The mailboxes of account `account_id`.
    pub fn list_all(store: &MailboxStore, account_id: u64) -> (r: Vec<MailBox>)
        ensures
            views(r@) == store.rows().filter(|m: MailBoxView| m.account_id == account_id),
    {
        let ghost rv = store.rows();
        let mut out: Vec<MailBox> = Vec::new();
        let mut i: usize = 0;
        while i < store.rows.len()
            invariant
                i <= store.rows@.len(),
                rv == store.rows(),
                views(out@) == rv.take(i as int).filter(|m: MailBoxView| m.account_id == account_id),
            decreases store.rows.len() - i,
        {
            assert(rv.take(i + 1) =~= rv.take(i as int).push(rv[i as int]));
            if store.rows[i].account_id == account_id {
                let c = store.rows[i].duplicate();
                let ghost before = views(out@);
                out.push(c);
                assert(views(out@) =~= before.push(c@));
            }
            i = i + 1;
        }
        assert(rv.take(store.rows@.len() as int) =~= rv);
        out
    }

    /// Deletes the mailbox with id `id`; fails with `InternalError`, and
    /// changes nothing, where there is none.
    pub fn delete(store: &mut MailboxStore, id: u64) -> (r: BichonResult<()>)
        requires
            old(store).wf(),
        ensures
            final(store).wf(),
            r is Ok == has_id(old(store).rows(), id),
            match r {
                Ok(_) => final(store).rows() == old(store).rows().filter(|m: MailBoxView| m.id != id),
                Err(e) => final(store).rows() == old(store).rows() && e.spec_code()
                    == ErrorCode::InternalError,
            },
    {
        match store.position_of(id) {
            None => Err(BichonError::new("mailbox missing".to_owned(), ErrorCode::InternalError)),
            Some(_) => {
                let removal = Removal::Id(id);
                let ghost before = store.rows();
                store.remove_where(&removal);
                proof {
                    lemma_filter_equiv(
                        before,
                        |m: MailBoxView| !removes(removal, m),
                        |m: MailBoxView| m.id != id,
                    );
                }
                Ok(())
            },
        }
    }

    /// Deletes every mailbox of account `account_id`.
    pub fn clean(store: &mut MailboxStore, account_id: u64)
        requires
            old(store).wf(),
        ensures
            final(store).wf(),
            final(store).rows() == old(store).rows().filter(
                |m: MailBoxView| m.account_id != account_id,
            ),
    {
        let removal = Removal::Account(account_id);
        let ghost before = store.rows();
        store.remove_where(&removal);
        proof {
            lemma_filter_equiv(
                before,
                |m: MailBoxView| !removes(removal, m),
                |m: MailBoxView| m.account_id != account_id,
            );
        }
    }

    /// Inserts the mailboxes of `batch`, all or none: fails with
    /// `InternalError`, and changes nothing, where two of them share an id or
    /// one's id is taken.
    pub fn batch_insert(store: &mut MailboxStore, batch: &[MailBox]) -> (r: BichonResult<()>)
        requires
            old(store).wf(),
        ensures
            final(store).wf(),
            r is Ok == insertable(old(store).rows(), views(batch@)),
            match r {
                Ok(_) => final(store).rows() == old(store).rows() + views(batch@),
                Err(e) => final(store).rows() == old(store).rows() && e.spec_code()
                    == ErrorCode::InternalError,
            },
    {
        let ghost bv = views(batch@);
        let mut i: usize = 0;
        while i < batch.len()
            invariant
                i <= batch.len(),
                bv == views(batch@),
                store.wf(),
                store.rows() == old(store).rows(),
                forall|a: int, b: int| 0 <= a < b < i ==> bv[a].id != bv[b].id,
                forall|a: int| 0 <= a < i ==> !has_id(store.rows(), #[trigger] bv[a].id),
            decreases batch.len() - i,
        {
            let id = batch[i].id;
            if store.position_of(id).is_some() {
                assert(has_id(store.rows(), bv[i as int].id));
                return Err(
                    BichonError::new("mailbox id already stored".to_owned(), ErrorCode::InternalError),
                );
            }
            let mut j: usize = 0;
            while j < i
                invariant
                    j <= i < batch.len(),
                    bv == views(batch@),
                    id == bv[i as int].id,
                    store.wf(),
                    store.rows() == old(store).rows(),
                    forall|a: int| 0 <= a < j ==> bv[a].id != id,
                decreases i - j,
            {
                if batch[j].id == id {
                    assert(bv[j as int].id == bv[i as int].id);
                    assert(!ids_unique(bv));
                    return Err(
                        BichonError::new("duplicate mailbox id in batch".to_owned(), ErrorCode::InternalError),
                    );
                }
                j = j + 1;
            }
            i = i + 1;
        }
        let ghost start = store.rows();
        let mut k: usize = 0;
        while k < batch.len()
            invariant
                k <= batch.len(),
                bv == views(batch@),
                ids_unique(bv),
                ids_unique(start),
                forall|a: int| 0 <= a < bv.len() ==> !has_id(start, #[trigger] bv[a].id),
                store.rows() == start + bv.take(k as int),
            decreases batch.len() - k,
        {
            let c = batch[k].duplicate();
            let ghost before = store.rows@;
            store.rows.push(c);
            assert(store.rows() =~= views(before).push(c@));
            assert(bv.take(k + 1) =~= bv.take(k as int).push(bv[k as int]));
            k = k + 1;
        }
        assert(bv.take(batch.len() as int) =~= bv);
        assert forall|a: int, b: int| 0 <= a < b < store.rows().len() implies store.rows()[a].id
            != store.rows()[b].id by {
            if a < start.len() && b >= start.len() {
                assert(store.rows()[b] == bv[b - start.len()]);
                assert(!has_id(start, bv[b - start.len()].id));
            }
        }
        Ok(())
    }

    /// Upserts the mailboxes of `batch` one after the other.
    pub fn batch_upsert(store: &mut MailboxStore, batch: &[MailBox])
        requires
            old(store).wf(),
        ensures
            final(store).wf(),
            final(store).rows() == upsert_all(old(store).rows(), views(batch@)),
    {
        let ghost start = store.rows();
        let ghost bv = views(batch@);
        let mut k: usize = 0;
        assert(bv.take(0) =~= Seq::<MailBoxView>::empty());
        while k < batch.len()
            invariant
                k <= batch.len(),
                bv == views(batch@),
                store.wf(),
                store.rows() == upsert_all(start, bv.take(k as int)),
            decreases batch.len() - k,
        {
            store.upsert(&batch[k]);
            assert(bv.take(k + 1).drop_last() =~= bv.take(k as int));
            k = k + 1;
        }
        assert(bv.take(batch.len() as int) =~= bv);
    }
}

/// Deletes the folder `mailbox_id` and, among the folders of account
/// `account_id`, its sub-folders: those whose names begin with its name
/// and delimiter. Returns the ids deleted, so that the message indexes
/// can drop their entries. Fails with `InternalError`, and changes
/// nothing, where there is no folder `mailbox_id`.
pub fn delete_mailbox_impl(store: &mut MailboxStore, account_id: u64, mailbox_id: u64) -> (r: BichonResult<Vec<u64>>)
    requires
        old(store).wf(),
    ensures
        final(store).wf(),
        r is Ok == has_id(old(store).rows(), mailbox_id),
        match r {
            Ok(ids) => exists|i: int|
                0 <= i < old(store).rows().len() && old(store).rows()[i].id == mailbox_id && {
                    let prefix = cascade_prefix(old(store).rows()[i]);
                    &&& ids@ == ids_of(cascade_rows(old(store).rows(), account_id, mailbox_id, prefix))
                    &&& final(store).rows() == old(store).rows().filter(
                        |m: MailBoxView|
                            !(m.account_id == account_id && in_cascade(m, mailbox_id, prefix)),
                    )
                },
            Err(e) => final(store).rows() == old(store).rows() && e.spec_code()
                == ErrorCode::InternalError,
        },
{
    let target = match MailBox::get(store, mailbox_id) {
        Ok(m) => m,
        Err(e) => {
            return Err(e);
        },
    };
    let mut prefix = target.name.clone();
    match &target.delimiter {
        Some(d) => prefix.append(d.as_str()),
        None => prefix.append("/"),
    }
    let ghost p = prefix@;
    assert(p == cascade_prefix(target@));
    let removal = Removal::Cascade { account_id, id: mailbox_id, prefix };
    let ghost before = store.rows();
    let ids = store.cascade_targets(&removal);
    store.remove_where(&removal);
    proof {
        lemma_filter_equiv(
            before,
            |m: MailBoxView| removes(removal, m),
            |m: MailBoxView| m.account_id == account_id && in_cascade(m, mailbox_id, p),
        );
        lemma_filter_equiv(
            before,
            |m: MailBoxView| !removes(removal, m),
            |m: MailBoxView| !(m.account_id == account_id && in_cascade(m, mailbox_id, p)),
        );
    }
    Ok(ids)
}

} // verus!
