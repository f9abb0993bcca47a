//! Folder discovery and change detection: reconciling a remote folder
//! listing with the account's known and subscribed folder sets, and choosing
//! the folders to synchronise.

use vstd::prelude::*;
use vstd::seq_lib::group_seq_properties;
use crate::error::{BichonError, ErrorCode};
use crate::mailbox::{
    contains_sent, has_no_select, has_sent, is_inbox, is_inbox_name, lemma_filter_equiv, views, MailBox,
    MailBoxView,
};
use crate::text::same_text;

verus! {

broadcast use group_seq_properties, Seq::lemma_filter_push;

/// The texts of a list of strings.
pub open spec fn texts(v: Seq<String>) -> Seq<Seq<char>> {
    v.map_values(|s: String| s@)
}

/// The subscribed folders that were not deleted.
pub open spec fn pruned(sync: Seq<Seq<char>>, deleted: Set<Seq<char>>) -> Seq<Seq<char>> {
    sync.filter(|f: Seq<char>| !deleted.contains(f))
}

/// The persisted folder sets of an account.
#[derive(Debug, Clone)]
pub struct FolderState {
    /// The folder names last observed on the server; absent before the first
    /// synchronisation.
    pub known_folders: Option<Vec<String>>,
    /// The folders to synchronise; absent or empty means the defaults.
    pub sync_folders: Option<Vec<String>>,
}

pub struct FolderStateView {
    pub known: Option<Set<Seq<char>>>,
    pub sync: Option<Seq<Seq<char>>>,
}

impl View for FolderState {
    type V = FolderStateView;

    open spec fn view(&self) -> FolderStateView {
        FolderStateView {
            known: match self.known_folders {
                Some(v) => Some(texts(v@).to_set()),
                None => None,
            },
            sync: match self.sync_folders {
                Some(v) => Some(texts(v@)),
                None => None,
            },
        }
    }
}

/// The subscribed folders, empty where none are set.
pub open spec fn sync_list(sync: Option<Seq<Seq<char>>>) -> Seq<Seq<char>> {
    match sync {
        Some(s) => s,
        None => seq![],
    }
}

/// What change detection persists, and the folders that appeared or went.
#[derive(Debug)]
pub struct FolderChanges {
    pub added: Vec<String>,
    pub removed: Vec<String>,
    /// The new known set, where it is to be written.
    pub known_folders: Option<Vec<String>>,
    /// The new subscription list, where it is to be written.
    pub sync_folders: Option<Vec<String>>,
}

/// `changes` is what change detection reports for an account in state `st`
/// whose server now lists the names `current`.
pub open spec fn reports_changes(st: FolderStateView, current: Set<Seq<char>>, changes: FolderChanges) -> bool {
    match st.known {
        None => {
            &&& changes.added@.len() == 0
            &&& changes.removed@.len() == 0
            &&& changes.sync_folders is None
            &&& changes.known_folders matches Some(k) && texts(k@).to_set() == current
                && texts(k@).no_duplicates()
        },
        Some(known) => {
            let deleted = known.difference(current);
            let sync = sync_list(st.sync);
            let kept = pruned(sync, deleted);
            &&& texts(changes.added@).to_set() == current.difference(known)
            &&& texts(changes.removed@).to_set() == deleted
            &&& if kept.len() < sync.len() {
                changes.sync_folders matches Some(s) && texts(s@) == kept
            } else {
                changes.sync_folders is None
            }
            &&& if current != known {
                changes.known_folders matches Some(k) && texts(k@).to_set() == current
                    && texts(k@).no_duplicates()
            } else {
                changes.known_folders is None
            }
        },
    }
}

/// Whether `v` holds the text `s`.
pub fn contains_name(v: &Vec<String>, s: &str) -> (r: bool)
    ensures
        r == texts(v@).contains(s@),
{
    let mut i: usize = 0;
    while i < v.len()
        invariant
            i <= v.len(),
            forall|k: int| 0 <= k < i ==> texts(v@)[k] != s@,
        decreases v.len() - i,
    {
        if same_text(v[i].as_str(), s) {
            assert(texts(v@)[i as int] == s@);
            return true;
        }
        i = i + 1;
    }
    false
}

/// A copy of a list of strings.
pub fn copy_names(v: &Vec<String>) -> (r: Vec<String>)
    ensures
        texts(r@) == texts(v@),
{
    let mut out: Vec<String> = Vec::new();
    let mut i: usize = 0;
    while i < v.len()
        invariant
            i <= v.len(),
            texts(out@) == texts(v@).take(i as int),
        decreases v.len() - i,
    {
        let c = v[i].clone();
        let ghost before = out@;
        out.push(c);
        assert(texts(out@) =~= texts(before).push(c@));
        assert(texts(v@).take(i + 1) =~= texts(v@).take(i as int).push(c@));
        i = i + 1;
    }
    assert(texts(v@).take(v.len() as int) =~= texts(v@));
    out
}

/// The names of `a` that are not in `b`, each once.
pub fn names_not_in(a: &Vec<String>, b: &Vec<String>) -> (r: Vec<String>)
    ensures
        texts(r@).to_set() == texts(a@).to_set().difference(texts(b@).to_set()),
        texts(r@).no_duplicates(),
{
    let mut out: Vec<String> = Vec::new();
    let mut i: usize = 0;
    while i < a.len()
        invariant
            i <= a.len(),
            texts(out@).to_set() == texts(a@).take(i as int).to_set().difference(texts(b@).to_set()),
            texts(out@).no_duplicates(),
        decreases a.len() - i,
    {
        let ghost before = texts(out@);
        let ghost x = a@[i as int]@;
        assert(texts(a@).take(i + 1) =~= texts(a@).take(i as int).push(x));
        let in_b = contains_name(b, a[i].as_str());
        let seen = contains_name(&out, a[i].as_str());
        assert forall|y: Seq<char>| #[trigger] texts(a@).take(i + 1).to_set().contains(y) == (texts(
            a@,
        ).take(i as int).to_set().contains(y) || y == x) by {
            assert(texts(a@).take(i + 1).contains(y) == (texts(a@).take(i as int).contains(y) || y
                == x));
        }
        if !in_b && !seen {
            let c = a[i].clone();
            out.push(c);
            assert(texts(out@) =~= before.push(x));
            assert forall|y: Seq<char>| #[trigger] texts(out@).to_set().contains(y) == (
            before.to_set().contains(y) || y == x) by {
                assert(before.push(x).contains(y) == (before.contains(y) || y == x));
            }
            assert(texts(out@).to_set() =~= texts(a@).take(i + 1).to_set().difference(
                texts(b@).to_set(),
            ));
        } else {
            let ghost lhs = texts(out@).to_set();
            let ghost rhs = texts(a@).take(i + 1).to_set().difference(texts(b@).to_set());
            assert forall|y: Seq<char>| lhs.contains(y) == rhs.contains(y) by {
                if y == x {
                    if in_b {
                        assert(texts(b@).to_set().contains(x));
                        assert(!rhs.contains(y));
                    } else {
                        assert(before.contains(x));
                        assert(before.to_set().contains(x));
                    }
                }
            }
            assert(texts(out@).to_set() =~= texts(a@).take(i + 1).to_set().difference(
                texts(b@).to_set(),
            ));
        }
        i = i + 1;
    }
    assert(texts(a@).take(a.len() as int) =~= texts(a@));
    out
}

/// The names of `a`, each once.
pub fn unique_names(a: &Vec<String>) -> (r: Vec<String>)
    ensures
        texts(r@).to_set() == texts(a@).to_set(),
        texts(r@).no_duplicates(),
{
    let none: Vec<String> = Vec::new();
    let r = names_not_in(a, &none);
    assert(texts(none@).to_set() =~= Set::empty());
    assert(texts(a@).to_set().difference(Set::empty()) =~= texts(a@).to_set());
    r
}

/// The entries of `sync` that `known` holds and `current` does not.
fn prune_deleted(sync: &Vec<String>, known: &Vec<String>, current: &Vec<String>) -> (r: Vec<String>)
    ensures
        texts(r@) == pruned(texts(sync@), texts(known@).to_set().difference(texts(current@).to_set())),
{
    let ghost deleted = texts(known@).to_set().difference(texts(current@).to_set());
    let mut out: Vec<String> = Vec::new();
    let mut i: usize = 0;
    while i < sync.len()
        invariant
            i <= sync.len(),
            deleted == texts(known@).to_set().difference(texts(current@).to_set()),
            texts(out@) == pruned(texts(sync@).take(i as int), deleted),
        decreases sync.len() - i,
    {
        let ghost before = texts(out@);
        let ghost x = sync@[i as int]@;
        assert(texts(sync@).take(i + 1) =~= texts(sync@).take(i as int).push(x));
        let gone = contains_name(known, sync[i].as_str()) && !contains_name(current, sync[i].as_str());
        assert(gone == deleted.contains(x));
        if !gone {
            let c = sync[i].clone();
            out.push(c);
            assert(texts(out@) =~= before.push(x));
        }
        i = i + 1;
    }
    assert(texts(sync@).take(sync.len() as int) =~= texts(sync@));
    out
}

/// Compares the names that the server lists now with the account's known
/// folders. On the first run the names become the baseline and nothing is
/// compared; later, subscribed folders that were deleted are dropped, and
/// the known set is rewritten where it changed.
pub fn detect_mailbox_changes(account: &FolderState, all_names: &Vec<String>) -> (r: FolderChanges)
    ensures
        reports_changes(account@, texts(all_names@).to_set(), r),
{
    let current = unique_names(all_names);
    match &account.known_folders {
        None => FolderChanges {
            added: Vec::new(),
            removed: Vec::new(),
            known_folders: Some(current),
            sync_folders: None,
        },
        Some(known) => {
            let added = names_not_in(&current, known);
            let removed = names_not_in(known, &current);
            let no_sync: Vec<String> = Vec::new();
            let sync = match &account.sync_folders {
                Some(s) => s,
                None => &no_sync,
            };
            assert(texts(sync@) == sync_list(account@.sync));
            let kept = prune_deleted(sync, known, &current);
            let sync_folders = if kept.len() < sync.len() {
                Some(kept)
            } else {
                None
            };
            let changed = added.len() > 0 || removed.len() > 0;
            proof {
                let c = texts(all_names@).to_set();
                let k = texts(known@).to_set();
                if !changed {
                    assert(texts(added@).to_set() =~= Set::empty());
                    assert(texts(removed@).to_set() =~= Set::empty());
                    assert(c =~= k) by {
                        assert forall|x| c.contains(x) implies k.contains(x) by {
                            if !k.contains(x) {
                                assert(c.difference(k).contains(x));
                            }
                        }
                        assert forall|x| k.contains(x) implies c.contains(x) by {
                            if !c.contains(x) {
                                assert(k.difference(c).contains(x));
                            }
                        }
                    }
                } else {
                    if added.len() > 0 {
                        assert(texts(added@).to_set().contains(texts(added@)[0]));
                    } else {
                        assert(texts(removed@).to_set().contains(texts(removed@)[0]));
                    }
                    assert(c != k);
                }
            }
            let known_folders = if changed {
                Some(copy_names(&current))
            } else {
                None
            };
            FolderChanges { added, removed, known_folders, sync_folders }
        },
    }
}

/// A folder chosen through the subscription list.
pub open spec fn subscribed_choice(m: MailBoxView, sync: Seq<Seq<char>>) -> bool {
    sync.contains(m.name) && !has_no_select(m.attributes)
}

/// A folder chosen by default: the inbox or the sent folder.
pub open spec fn default_choice(m: MailBoxView) -> bool {
    !has_no_select(m.attributes) && (is_inbox_name(m.name) || has_sent(m.attributes))
}

/// Whether `m` is synchronised under the subscription list `sync`: the list
/// decides where it is not empty, the default rule where it is.
pub open spec fn selected_by(m: MailBoxView, sync: Seq<Seq<char>>) -> bool {
    if sync.len() > 0 {
        subscribed_choice(m, sync)
    } else {
        default_choice(m)
    }
}

/// The remote folders synchronised under the subscription list `sync`, in
/// listing order.
pub open spec fn selection(mbs: Seq<MailBoxView>, sync: Seq<Seq<char>>) -> Seq<MailBoxView> {
    mbs.filter(|m: MailBoxView| selected_by(m, sync))
}

/// The names of a list of mailboxes.
pub open spec fn names_of(mbs: Seq<MailBoxView>) -> Seq<Seq<char>> {
    mbs.map_values(|m: MailBoxView| m.name)
}

/// The folder sets after change detection, for an account in state `st`
/// whose server lists the names `current`.
pub open spec fn after_changes(st: FolderStateView, current: Set<Seq<char>>) -> FolderStateView {
    match st.known {
        None => FolderStateView { known: Some(current), sync: st.sync },
        Some(known) => FolderStateView {
            known: Some(current),
            sync: match st.sync {
                Some(s) => {
                    let kept = pruned(s, known.difference(current));
                    if kept.len() < s.len() {
                        Some(kept)
                    } else {
                        Some(s)
                    }
                },
                None => None,
            },
        },
    }
}

/// Whether the listing `mbs` holds a folder named `f` that can be selected.
pub open spec fn selectable_listed(mbs: Seq<MailBoxView>, f: Seq<char>) -> bool {
    exists|i: int| 0 <= i < mbs.len() && mbs[i].name == f && !has_no_select(mbs[i].attributes)
}

/// The subscribed names that the listing `mbs` offers as selectable folders.
pub open spec fn live_subscriptions(sync: Seq<Seq<char>>, mbs: Seq<MailBoxView>) -> Seq<Seq<char>> {
    sync.filter(|f: Seq<char>| selectable_listed(mbs, f))
}

/// The folder sets once the subscription list keeps only the names that the
/// listing `mbs` offers as selectable folders: a subscribed folder that is
/// gone, or now carries the cannot-select flag, leaves the list.
pub open spec fn after_pruning(st: FolderStateView, mbs: Seq<MailBoxView>) -> FolderStateView {
    FolderStateView {
        known: st.known,
        sync: match st.sync {
            Some(s) => Some(live_subscriptions(s, mbs)),
            None => None,
        },
    }
}

/// The folder sets after change detection and pruning, for an account in
/// state `st` whose server lists `mbs`.
pub open spec fn reconciled(st: FolderStateView, mbs: Seq<MailBoxView>) -> FolderStateView {
    after_pruning(after_changes(st, names_of(mbs).to_set()), mbs)
}

/// The folder sets that one synchronisation pass leaves, for an account in
/// state `st` whose server lists `mbs`: change detection; then the
/// subscription list keeps only names listed as selectable folders (so a
/// non-empty list never names a folder that is absent or cannot be
/// selected); then, where the list is empty and the default rule finds
/// folders, their names become the list.
pub open spec fn pass_state(st: FolderStateView, mbs: Seq<MailBoxView>) -> FolderStateView {
    if mbs.len() == 0 {
        st
    } else {
        let st1 = reconciled(st, mbs);
        let sync = sync_list(st1.sync);
        let sel = selection(mbs, sync);
        if sync.len() == 0 && sel.len() > 0 {
            FolderStateView { known: st1.known, sync: Some(names_of(sel)) }
        } else {
            st1
        }
    }
}

/// The folders that one pass synchronises, or `None` where it fails: on an
/// empty listing, or where the default rule finds nothing.
pub open spec fn pass_selection(st: FolderStateView, mbs: Seq<MailBoxView>) -> Option<Seq<MailBoxView>> {
    if mbs.len() == 0 {
        None
    } else {
        let sync = sync_list(reconciled(st, mbs).sync);
        let sel = selection(mbs, sync);
        if sync.len() == 0 && sel.len() == 0 {
            None
        } else {
            Some(sel)
        }
    }
}

/// Whether `mbs` lists a folder named `name` that can be selected.
pub fn has_selectable_folder(mbs: &Vec<MailBox>, name: &str) -> (r: bool)
    ensures
        r == selectable_listed(views(mbs@), name@),
{
    let ghost mv = views(mbs@);
    let mut i: usize = 0;
    while i < mbs.len()
        invariant
            i <= mbs.len(),
            mv == views(mbs@),
            forall|k: int|
                0 <= k < i ==> !(mv[k].name == name@ && !has_no_select(mv[k].attributes)),
        decreases mbs.len() - i,
    {
        if same_text(mbs[i].name.as_str(), name) && !mbs[i].is_no_select() {
            assert(mv[i as int].name == name@ && !has_no_select(mv[i as int].attributes));
            return true;
        }
        i = i + 1;
    }
    false
}

/// The subscribed names that `mbs` lists as selectable folders, in order.
pub fn keep_live_subscriptions(sync: &Vec<String>, mbs: &Vec<MailBox>) -> (r: Vec<String>)
    ensures
        texts(r@) == live_subscriptions(texts(sync@), views(mbs@)),
{
    let ghost sv = texts(sync@);
    let mut out: Vec<String> = Vec::new();
    let mut i: usize = 0;
    while i < sync.len()
        invariant
            i <= sync.len(),
            sv == texts(sync@),
            texts(out@) == live_subscriptions(sv.take(i as int), views(mbs@)),
        decreases sync.len() - i,
    {
        let ghost before = texts(out@);
        let ghost x = sync@[i as int]@;
        assert(sv.take(i + 1) =~= sv.take(i as int).push(x));
        if has_selectable_folder(mbs, sync[i].as_str()) {
            let c = sync[i].clone();
            out.push(c);
            assert(texts(out@) =~= before.push(x));
        }
        i = i + 1;
    }
    assert(sv.take(sync.len() as int) =~= sv);
    out
}

/// The names of a list of mailboxes.
pub fn mailbox_names(mbs: &Vec<MailBox>) -> (r: Vec<String>)
    ensures
        texts(r@) == names_of(views(mbs@)),
{
    let mut out: Vec<String> = Vec::new();
    let mut i: usize = 0;
    while i < mbs.len()
        invariant
            i <= mbs.len(),
            texts(out@) == names_of(views(mbs@)).take(i as int),
        decreases mbs.len() - i,
    {
        let c = mbs[i].name.clone();
        let ghost before = out@;
        out.push(c);
        assert(texts(out@) =~= texts(before).push(c@));
        assert(names_of(views(mbs@)).take(i + 1) =~= names_of(views(mbs@)).take(i as int).push(c@));
        i = i + 1;
    }
    assert(names_of(views(mbs@)).take(mbs.len() as int) =~= names_of(views(mbs@)));
    out
}

fn is_selected(m: &MailBox, sync: &Vec<String>) -> (r: bool)
    ensures
        r == selected_by(m@, texts(sync@)),
{
    if m.is_no_select() {
        false
    } else if sync.len() > 0 {
        contains_name(sync, m.name.as_str())
    } else {
        is_inbox(m.name.as_str()) || contains_sent(&m.attributes)
    }
}

/// The folders to synchronise under the subscription list `sync_folders`.
/// Fails with `ImapUnexpectedResult` where the list is empty and the server
/// offers neither an inbox nor a sent folder that can be selected.
pub fn select_folders(mailboxes: &Vec<MailBox>, sync_folders: &Vec<String>) -> (r: Result<
    Vec<MailBox>,
    BichonError,
>)
    ensures
        r is Err <==> (sync_folders@.len() == 0 && selection(views(mailboxes@), texts(
            sync_folders@,
        )).len() == 0),
        match r {
            Ok(v) => views(v@) == selection(views(mailboxes@), texts(sync_folders@)),
            Err(e) => e.spec_code() == ErrorCode::ImapUnexpectedResult,
        },
{
    let ghost mv = views(mailboxes@);
    let ghost sync = texts(sync_folders@);
    let mut out: Vec<MailBox> = Vec::new();
    let mut i: usize = 0;
    while i < mailboxes.len()
        invariant
            i <= mailboxes.len(),
            mv == views(mailboxes@),
            sync == texts(sync_folders@),
            views(out@) == selection(mv.take(i as int), sync),
        decreases mailboxes.len() - i,
    {
        let ghost before = views(out@);
        assert(mv.take(i + 1) =~= mv.take(i as int).push(mailboxes@[i as int]@));
        if is_selected(&mailboxes[i], sync_folders) {
            let c = mailboxes[i].duplicate();
            out.push(c);
            assert(views(out@) =~= before.push(c@));
        }
        i = i + 1;
    }
    assert(mv.take(mailboxes.len() as int) =~= mv);
    if sync_folders.len() == 0 && out.len() == 0 {
        Err(
            BichonError::new(
                "no subscribed mailboxes found: the server offers neither an inbox nor a sent folder".to_owned(),
                ErrorCode::ImapUnexpectedResult,
            ),
        )
    } else {
        Ok(out)
    }
}

/// The mailboxes that can be examined: those without the cannot-select flag,
/// in order.
pub fn selectable_mailboxes(mailboxes: &Vec<MailBox>) -> (r: Vec<MailBox>)
    ensures
        views(r@) == views(mailboxes@).filter(|m: MailBoxView| !has_no_select(m.attributes)),
{
    let ghost mv = views(mailboxes@);
    let mut out: Vec<MailBox> = Vec::new();
    let mut i: usize = 0;
    while i < mailboxes.len()
        invariant
            i <= mailboxes.len(),
            mv == views(mailboxes@),
            views(out@) == mv.take(i as int).filter(|m: MailBoxView| !has_no_select(m.attributes)),
        decreases mailboxes.len() - i,
    {
        let ghost before = views(out@);
        assert(mv.take(i + 1) =~= mv.take(i as int).push(mailboxes@[i as int]@));
        if !mailboxes[i].is_no_select() {
            let c = mailboxes[i].duplicate();
            out.push(c);
            assert(views(out@) =~= before.push(c@));
        }
        i = i + 1;
    }
    assert(mv.take(mailboxes.len() as int) =~= mv);
    out
}

/// The outcome of one synchronisation pass.
#[derive(Debug)]
pub struct SyncPass {
    /// What change detection reported.
    pub changes: FolderChanges,
    /// The account's folder sets after the pass, to be persisted.
    pub account: FolderState,
    /// The folders to examine, or why the pass failed.
    pub selected: Result<Vec<MailBox>, BichonError>,
}

impl FolderState {
    /// A copy with the same view.
    pub fn duplicate(&self) -> (r: FolderState)
        ensures
            r@ == self@,
    {
        FolderState {
            known_folders: match &self.known_folders {
                Some(v) => Some(copy_names(v)),
                None => None,
            },
            sync_folders: match &self.sync_folders {
                Some(v) => Some(copy_names(v)),
                None => None,
            },
        }
    }

    /// Writes what change detection reported.
    pub fn apply_changes(&mut self, changes: &FolderChanges)
        ensures
            final(self).known_folders is Some == (old(self).known_folders is Some
                || changes.known_folders is Some),
            final(self)@.known == match changes.known_folders {
                Some(k) => Some(texts(k@).to_set()),
                None => old(self)@.known,
            },
            final(self)@.sync == match changes.sync_folders {
                Some(s) => Some(texts(s@)),
                None => old(self)@.sync,
            },
    {
        match &changes.known_folders {
            Some(k) => {
                self.known_folders = Some(copy_names(k));
            },
            None => {},
        }
        match &changes.sync_folders {
            Some(s) => {
                self.sync_folders = Some(copy_names(s));
            },
            None => {},
        }
    }

    /// The subscription list, empty where none is set.
    pub fn sync_or_empty(&self) -> (r: Vec<String>)
        ensures
            texts(r@) == sync_list(self@.sync),
    {
        match &self.sync_folders {
            Some(v) => copy_names(v),
            None => Vec::new(),
        }
    }
}

/// One synchronisation pass over the folders that the server lists: change
/// detection against the known folders, then the choice of the folders to
/// synchronise. An empty listing fails with `ImapUnexpectedResult` and
/// changes nothing.
pub fn get_sync_folders(account: &FolderState, mailboxes: &Vec<MailBox>) -> (r: SyncPass)
    ensures
        r.account@ == pass_state(account@, views(mailboxes@)),
        match r.selected {
            Ok(v) => pass_selection(account@, views(mailboxes@)) == Some(views(v@)),
            Err(e) => pass_selection(account@, views(mailboxes@)) is None && e.spec_code()
                == ErrorCode::ImapUnexpectedResult,
        },
        mailboxes@.len() > 0 ==> reports_changes(
            account@,
            names_of(views(mailboxes@)).to_set(),
            r.changes,
        ),
        mailboxes@.len() > 0 ==> forall|n: Seq<char>|
            #[trigger] sync_list(r.account@.sync).contains(n) ==> selectable_listed(
                views(mailboxes@),
                n,
            ),
{
    if mailboxes.len() == 0 {
        return SyncPass {
            changes: FolderChanges {
                added: Vec::new(),
                removed: Vec::new(),
                known_folders: None,
                sync_folders: None,
            },
            account: account.duplicate(),
            selected: Err(
                BichonError::new(
                    "no mailboxes returned from the server".to_owned(),
                    ErrorCode::ImapUnexpectedResult,
                ),
            ),
        };
    }
    let names = mailbox_names(mailboxes);
    let changes = detect_mailbox_changes(account, &names);
    let mut state = account.duplicate();
    state.apply_changes(&changes);
    let ghost current = names_of(views(mailboxes@)).to_set();
    proof {
        let st = account@;
        match st.known {
            None => {},
            Some(known) => {
                if current == known {
                    assert(state@.known == Some(current));
                }
                match st.sync {
                    Some(sv) => {},
                    None => {
                        assert(pruned(Seq::<Seq<char>>::empty(), known.difference(current)).len() == 0);
                    },
                }
            },
        }
        assert(state@ == after_changes(st, current));
    }
    let listed_sync = state.sync_or_empty();
    let sync = keep_live_subscriptions(&listed_sync, mailboxes);
    if state.sync_folders.is_some() {
        state.sync_folders = Some(copy_names(&sync));
    }
    assert(state@ == reconciled(account@, views(mailboxes@)));
    proof {
        if state.sync_folders is None {
            reveal(Seq::filter);
            assert(texts(listed_sync@) =~= Seq::<Seq<char>>::empty());
            assert(texts(sync@) =~= Seq::<Seq<char>>::empty());
        }
        assert(texts(sync@) == sync_list(state@.sync));
    }
    let selected = select_folders(mailboxes, &sync);
    if sync.len() == 0 {
        match &selected {
            Ok(v) => {
                state.sync_folders = Some(mailbox_names(v));
            },
            Err(_) => {},
        }
    }
    proof {
        law_subscriptions_stay_selectable(account@, views(mailboxes@));
    }
    SyncPass { changes, account: state, selected }
}

proof fn lemma_pruned_nothing(s: Seq<Seq<char>>)
    ensures
        pruned(s, Set::empty()) == s,
    decreases s.len(),
{
    if s.len() > 0 {
        lemma_pruned_nothing(s.drop_last());
        assert(s.drop_last().push(s.last()) =~= s);
    } else {
        assert(pruned(s, Set::empty()) =~= s);
    }
}

proof fn lemma_same_selection(mbs: Seq<MailBoxView>, s1: Seq<Seq<char>>, s2: Seq<Seq<char>>)
    requires
        forall|i: int| 0 <= i < mbs.len() ==> selected_by(mbs[i], s1) == selected_by(mbs[i], s2),
    ensures
        selection(mbs, s1) == selection(mbs, s2),
{
    lemma_filter_equiv(mbs, |m: MailBoxView| selected_by(m, s1), |m: MailBoxView| selected_by(m, s2));
}

/// Where folder names are unique, subscribing to the names of the default
/// selection selects exactly the default selection again.
proof fn lemma_defaults_reselected(mbs: Seq<MailBoxView>)
    requires
        names_of(mbs).no_duplicates(),
    ensures
        selection(mbs, seq![]).len() > 0 ==> selection(
            mbs,
            names_of(selection(mbs, seq![])),
        ) == selection(mbs, seq![]),
        selection(mbs, seq![]).len() > 0 ==> names_of(selection(mbs, seq![])).len() > 0,
{
    let empty: Seq<Seq<char>> = seq![];
    let sel = selection(mbs, empty);
    let d = names_of(sel);
    if sel.len() > 0 {
        assert forall|i: int| 0 <= i < mbs.len() implies selected_by(mbs[i], d) == selected_by(
            mbs[i],
            empty,
        ) by {
            let m = mbs[i];
            if default_choice(m) {
                mbs.lemma_filter_contains(|m: MailBoxView| selected_by(m, empty), i);
                let j = choose|j: int| 0 <= j < sel.len() && sel[j] == m;
                assert(d[j] == m.name);
                assert(d.contains(m.name));
            }
            if d.contains(m.name) && !has_no_select(m.attributes) {
                let j = choose|j: int| 0 <= j < d.len() && d[j] == m.name;
                mbs.lemma_filter_pred(|m: MailBoxView| selected_by(m, empty), j);
                mbs.lemma_filter_contains_rev(|m: MailBoxView| selected_by(m, empty), sel[j]);
                let k = choose|k: int| 0 <= k < mbs.len() && mbs[k] == sel[j];
                assert(names_of(mbs)[k] == names_of(mbs)[i]);
                assert(k == i);
            }
        }
        lemma_same_selection(mbs, d, empty);
    }
}

proof fn lemma_filter_keeps_all(s: Seq<Seq<char>>, p: spec_fn(Seq<char>) -> bool)
    requires
        forall|i: int| 0 <= i < s.len() ==> p(s[i]),
    ensures
        s.filter(p) == s,
    decreases s.len(),
{
    if s.len() > 0 {
        let init = s.drop_last();
        assert forall|i: int| 0 <= i < init.len() implies p(init[i]) by {
            assert(init[i] == s[i]);
        }
        lemma_filter_keeps_all(init, p);
        assert(init.push(s.last()) =~= s);
        assert(p(s[s.len() - 1]));
    } else {
        reveal(Seq::filter);
        assert(s.filter(p) =~= s);
    }
}

/// After a pass over a non-empty listing, every name on the subscription
/// list is listed as a folder that can be selected; and where the pass
/// succeeds the list is not empty.
pub proof fn law_subscriptions_stay_selectable(st: FolderStateView, mbs: Seq<MailBoxView>)
    requires
        mbs.len() > 0,
    ensures
        forall|n: Seq<char>|
            #[trigger] sync_list(pass_state(st, mbs).sync).contains(n) ==> selectable_listed(mbs, n),
        pass_selection(st, mbs) is Some ==> sync_list(pass_state(st, mbs).sync).len() > 0,
{
    let st1 = reconciled(st, mbs);
    let sync = sync_list(st1.sync);
    let sel = selection(mbs, sync);
    if sync.len() == 0 && sel.len() > 0 {
        assert forall|n: Seq<char>| #[trigger] names_of(sel).contains(n) implies selectable_listed(
            mbs,
            n,
        ) by {
            let j = choose|j: int| 0 <= j < names_of(sel).len() && names_of(sel)[j] == n;
            mbs.lemma_filter_pred(|m: MailBoxView| selected_by(m, sync), j);
            mbs.lemma_filter_contains_rev(|m: MailBoxView| selected_by(m, sync), sel[j]);
            let k = choose|k: int| 0 <= k < mbs.len() && mbs[k] == sel[j];
            assert(mbs[k].name == n && !has_no_select(mbs[k].attributes));
        }
    } else {
        match st1.sync {
            Some(x) => {
                let s0 = sync_list(after_changes(st, names_of(mbs).to_set()).sync);
                assert forall|n: Seq<char>| #[trigger] x.contains(n) implies selectable_listed(
                    mbs,
                    n,
                ) by {
                    let j = choose|j: int| 0 <= j < x.len() && x[j] == n;
                    s0.lemma_filter_pred(|f: Seq<char>| selectable_listed(mbs, f), j);
                }
            },
            None => {},
        }
    }
}

/// Running a pass twice on an unchanged listing leaves the same folder sets
/// and selects the same folders as running it once. A server lists each
/// mailbox once, so the listed names are unique; with two folders of one
/// name (one the sent folder, one not), the first pass would subscribe to
/// the name and the second select both.
pub proof fn law_pass_idempotent(st: FolderStateView, mbs: Seq<MailBoxView>)
    requires
        names_of(mbs).no_duplicates(),
    ensures
        pass_state(pass_state(st, mbs), mbs) == pass_state(st, mbs),
        pass_selection(pass_state(st, mbs), mbs) == pass_selection(st, mbs),
{
    if mbs.len() > 0 {
        let c = names_of(mbs).to_set();
        let st1 = reconciled(st, mbs);
        let s = sync_list(st1.sync);
        let sel = selection(mbs, s);
        let st2 = pass_state(st, mbs);
        law_subscriptions_stay_selectable(st, mbs);
        assert(c.difference(c) =~= Set::empty());
        match st2.sync {
            Some(x) => {
                lemma_pruned_nothing(x);
                assert forall|i: int| 0 <= i < x.len() implies selectable_listed(mbs, x[i]) by {
                    assert(sync_list(st2.sync).contains(x[i]));
                }
                lemma_filter_keeps_all(x, |f: Seq<char>| selectable_listed(mbs, f));
            },
            None => {},
        }
        assert(after_changes(st2, c) == st2);
        assert(reconciled(st2, mbs) == st2);
        if s.len() == 0 && sel.len() > 0 {
            assert(s =~= seq![]);
            lemma_defaults_reselected(mbs);
        }
    }
}

/// No folder that carries the cannot-select flag is ever selected, whether
/// subscribed or matching the default rule.
pub proof fn law_no_select_never_chosen(st: FolderStateView, mbs: Seq<MailBoxView>, i: int)
    requires
        pass_selection(st, mbs) is Some,
        0 <= i < pass_selection(st, mbs)->Some_0.len(),
    ensures
        !has_no_select(pass_selection(st, mbs)->Some_0[i].attributes),
{
    let sync = sync_list(reconciled(st, mbs).sync);
    mbs.lemma_filter_pred(|m: MailBoxView| selected_by(m, sync), i);
}

} // verus!
