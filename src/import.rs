//! Decisions of the archive importers: which folder a message goes to, and
//! how messages are grouped into upload batches.

use vstd::prelude::*;
use vstd::string::*;
use crate::folders::texts;
use crate::text::{same_text, starts_with_text};

verus! {

/// Messages per upload request.
pub const BATCH_LIMIT: usize = 50;

/// `s` with each backslash turned into a slash.
pub open spec fn forward_slashes(s: Seq<char>) -> Seq<char> {
    s.map_values(|c: char| if c == '\\' { '/' } else { c })
}

/// `s` with every occurrence of `pat` removed, scanning left to right.
pub open spec fn remove_all(s: Seq<char>, pat: Seq<char>) -> Seq<char>
    decreases s.len(),
{
    if s.len() == 0 {
        s
    } else if pat.len() > 0 && pat.len() <= s.len() && s.subrange(0, pat.len() as int) == pat {
        remove_all(s.subrange(pat.len() as int, s.len() as int), pat)
    } else {
        seq![s[0]] + remove_all(s.drop_first(), pat)
    }
}

/// The folder of an `.eml` file whose directory, relative to the import
/// root, is `rel_dir`: that path with forward slashes, `Inbox` at the root.
pub open spec fn eml_folder(rel_dir: Seq<char>) -> Seq<char> {
    if rel_dir.len() == 0 {
        "Inbox"@
    } else {
        forward_slashes(rel_dir)
    }
}

/// The mailbox of a Thunderbird mail file at `rel_path` under the profile
/// root: the path without the `.sbd` markers of sub-folder directories,
/// with forward slashes.
pub open spec fn thunderbird_mailbox(rel_path: Seq<char>) -> Seq<char> {
    forward_slashes(remove_all(rel_path, ".sbd"@))
}

fn with_forward_slashes(s: &str) -> (r: String)
    ensures
        r@ == forward_slashes(s@),
{
    let n = s.unicode_len();
    let mut out = String::new();
    let mut i: usize = 0;
    while i < n
        invariant
            n == s@.len(),
            i <= n,
            out@ == forward_slashes(s@.take(i as int)),
        decreases n - i,
    {
        let piece = s.substring_char(i, i + 1);
        if s.get_char(i) == '\\' {
            out.append("/");
        } else {
            out.append(piece);
        }
        proof {
            reveal_strlit("/");
            assert(forward_slashes(s@.take(i + 1)) =~= forward_slashes(s@.take(i as int)).push(
                if s@[i as int] == '\\' {
                    '/'
                } else {
                    s@[i as int]
                },
            ));
        }
        i = i + 1;
    }
    assert(s@.take(n as int) =~= s@);
    out
}

/// The folder of an `.eml` file in the directory `rel_dir`.
pub fn eml_folder_name(rel_dir: &str) -> (r: String)
    ensures
        r@ == eml_folder(rel_dir@),
{
    if rel_dir.unicode_len() == 0 {
        "Inbox".to_owned()
    } else {
        with_forward_slashes(rel_dir)
    }
}

proof fn lemma_remove_all_from(s: Seq<char>, pat: Seq<char>, i: int)
    requires
        0 <= i < s.len(),
        !(pat.len() > 0 && i + pat.len() <= s.len() && s.subrange(i, i + pat.len()) == pat),
    ensures
        remove_all(s.subrange(i, s.len() as int), pat) == seq![s[i]] + remove_all(
            s.subrange(i + 1, s.len() as int),
            pat,
        ),
{
    let t = s.subrange(i, s.len() as int);
    assert(t.drop_first() =~= s.subrange(i + 1, s.len() as int));
    if pat.len() > 0 && pat.len() <= t.len() {
        assert(t.subrange(0, pat.len() as int) =~= s.subrange(i, i + pat.len()));
    }
}

proof fn lemma_remove_all_skip(s: Seq<char>, pat: Seq<char>, i: int)
    requires
        0 <= i,
        pat.len() > 0,
        i + pat.len() <= s.len(),
        s.subrange(i, i + pat.len()) == pat,
    ensures
        remove_all(s.subrange(i, s.len() as int), pat) == remove_all(
            s.subrange(i + pat.len(), s.len() as int),
            pat,
        ),
{
    let t = s.subrange(i, s.len() as int);
    assert(t.subrange(0, pat.len() as int) =~= pat);
    assert(t.subrange(pat.len() as int, t.len() as int) =~= s.subrange(
        i + pat.len(),
        s.len() as int,
    ));
}

/// `s` with every `.sbd` removed.
fn without_sbd(s: &str) -> (r: String)
    ensures
        r@ == remove_all(s@, ".sbd"@),
{
    proof {
        reveal_strlit(".sbd");
    }
    let n = s.unicode_len();
    let mut out = String::new();
    let mut i: usize = 0;
    proof {
        assert(s@.subrange(0, n as int) =~= s@);
        assert(out@ + remove_all(s@.subrange(0, n as int), ".sbd"@) == remove_all(s@, ".sbd"@));
    }
    while i < n
        invariant
            n == s@.len(),
            i <= n,
            ".sbd"@.len() == 4,
            out@ + remove_all(s@.subrange(i as int, n as int), ".sbd"@) == remove_all(s@, ".sbd"@),
        decreases n - i,
    {
        let rest = s.substring_char(i, n);
        if starts_with_text(rest, ".sbd") {
            proof {
                assert(s@.subrange(i as int, i + 4) =~= rest@.subrange(0, 4));
                lemma_remove_all_skip(s@, ".sbd"@, i as int);
            }
            i = i + 4;
        } else {
            let piece = s.substring_char(i, i + 1);
            proof {
                if i + 4 <= n {
                    assert(s@.subrange(i as int, i + 4) =~= rest@.subrange(0, 4));
                }
                lemma_remove_all_from(s@, ".sbd"@, i as int);
                assert(piece@ =~= seq![s@[i as int]]);
            }
            let ghost before = out@;
            out.append(piece);
            assert(before + remove_all(s@.subrange(i as int, n as int), ".sbd"@) =~= out@
                + remove_all(s@.subrange(i + 1, n as int), ".sbd"@));
            i = i + 1;
        }
    }
    assert(s@.subrange(n as int, n as int) =~= Seq::<char>::empty());
    assert(out@ =~= out@ + Seq::<char>::empty());
    out
}

/// The mailbox of a Thunderbird mail file at `rel_path`.
pub fn thunderbird_mailbox_name(rel_path: &str) -> (r: String)
    ensures
        r@ == thunderbird_mailbox(rel_path@),
{
    let stripped = without_sbd(rel_path);
    with_forward_slashes(stripped.as_str())
}

/// Whether a file of a Thunderbird profile holds a mailbox: mail stores
/// have no extension, while indexes (`.msf`), settings (`.dat`, `.json`,
/// `.html`, `.txt`) and databases (`.sqlite`) have one.
pub fn is_thunderbird_mail_file(extension: &str) -> (r: bool)
    ensures
        r == (extension@.len() == 0),
{
    extension.unicode_len() == 0
}

/// Pending messages: each folder once, with the messages not yet sent.
pub type Pending = Seq<(Seq<char>, Seq<Seq<char>>)>;

/// The position of folder `f` in `p` at or after `i`, or the length of `p`
/// where it is absent.
pub open spec fn slot_from(p: Pending, f: Seq<char>, i: int) -> int
    decreases p.len() - i,
{
    if i >= p.len() {
        p.len() as int
    } else if p[i].0 == f {
        i
    } else {
        slot_from(p, f, i + 1)
    }
}

pub open spec fn slot(p: Pending, f: Seq<char>) -> int {
    slot_from(p, f, 0)
}

/// The pending messages of folder `f` once `eml` joins them.
pub open spec fn grown(p: Pending, f: Seq<char>, eml: Seq<char>) -> Seq<Seq<char>> {
    let j = slot(p, f);
    if j < p.len() {
        p[j].1.push(eml)
    } else {
        seq![eml]
    }
}

/// What stays pending after `eml` joins folder `f`: where the folder's
/// messages reach the batch limit they leave as a batch, else they stay.
pub open spec fn pending_after(p: Pending, f: Seq<char>, eml: Seq<char>) -> Pending {
    let j = slot(p, f);
    let g = grown(p, f, eml);
    if g.len() >= BATCH_LIMIT {
        if j < p.len() {
            p.remove(j)
        } else {
            p
        }
    } else if j < p.len() {
        p.update(j, (f, g))
    } else {
        p.push((f, g))
    }
}

/// Messages buffered per folder until a batch is full.
#[derive(Debug)]
pub struct ImportBatches {
    folders: Vec<(String, Vec<String>)>,
}

impl ImportBatches {
    pub closed spec fn pending(&self) -> Pending {
        self.folders@.map_values(|e: (String, Vec<String>)| (e.0@, texts(e.1@)))
    }

    /// Each folder once; every buffer holds at least one message and fewer
    /// than a batch.
    pub closed spec fn wf(&self) -> bool {
        let p = self.pending();
        &&& forall|a: int, b: int| 0 <= a < b < p.len() ==> p[a].0 != p[b].0
        &&& forall|a: int| 0 <= a < p.len() ==> 0 < #[trigger] p[a].1.len() < BATCH_LIMIT
    }

    pub fn new() -> (r: Self)
        ensures
            r.wf(),
            r.pending() == Seq::<(Seq<char>, Seq<Seq<char>>)>::empty(),
    {
        let r = ImportBatches { folders: Vec::new() };
        assert(r.pending() =~= Seq::<(Seq<char>, Seq<Seq<char>>)>::empty());
        r
    }

    /// Buffers `eml` for `folder`; returns the folder's batch where it is
    /// now full.
    pub fn push(&mut self, folder: &str, eml: String) -> (r: Option<(String, Vec<String>)>)
        requires
            old(self).wf(),
        ensures
            final(self).wf(),
            final(self).pending() == pending_after(old(self).pending(), folder@, eml@),
            match r {
                Some(batch) => {
                    &&& grown(old(self).pending(), folder@, eml@).len() >= BATCH_LIMIT
                    &&& batch.0@ == folder@
                    &&& texts(batch.1@) == grown(old(self).pending(), folder@, eml@)
                },
                None => grown(old(self).pending(), folder@, eml@).len() < BATCH_LIMIT,
            },
    {
        let ghost p = self.pending();
        let n = self.folders.len();
        let mut j: usize = 0;
        while j < n && !same_text(self.folders[j].0.as_str(), folder)
            invariant
                n == self.folders@.len(),
                p == self.pending(),
                j <= n,
                slot(p, folder@) == slot_from(p, folder@, j as int),
                forall|k: int| 0 <= k < j ==> p[k].0 != folder@,
            decreases n - j,
        {
            j = j + 1;
        }
        assert(slot(p, folder@) == j);
        let ghost e = eml@;
        let (name, mut list) = if j < n {
            self.folders.remove(j)
        } else {
            (folder.to_owned(), Vec::new())
        };
        proof {
            if j < n {
                assert(self.pending() =~= p.remove(j as int));
            }
            assert(name@ == folder@);
            assert(texts(list@) == if j < n { p[j as int].1 } else { Seq::<Seq<char>>::empty() });
        }
        let ghost before = list@;
        list.push(eml);
        assert(texts(list@) =~= texts(before).push(e));
        assert(texts(list@) == grown(p, folder@, e));
        if list.len() >= BATCH_LIMIT {
            proof {
                if j >= n {
                    assert(self.pending() == p);
                }
            }
            Some((name, list))
        } else {
            let ghost q = self.pending();
            self.folders.insert(j, (name, list));
            proof {
                if j < n {
                    assert(self.pending() =~= p.update(j as int, (folder@, grown(p, folder@, e))));
                } else {
                    assert(self.pending() =~= p.push((folder@, grown(p, folder@, e))));
                }
            }
            None
        }
    }

    /// The batches still pending, each folder once and none empty.
    pub fn drain(self) -> (r: Vec<(String, Vec<String>)>)
        requires
            self.wf(),
        ensures
            r@.map_values(|e: (String, Vec<String>)| (e.0@, texts(e.1@))) == self.pending(),
            forall|i: int| 0 <= i < r@.len() ==> #[trigger] r@[i].1@.len() > 0,
    {
        let r = self.folders;
        proof {
            assert forall|i: int| 0 <= i < r@.len() implies #[trigger] r@[i].1@.len() > 0 by {
                assert(self.pending()[i].1.len() > 0);
            }
        }
        r
    }
}

} // verus!
