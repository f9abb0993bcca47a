//! The mailbox entity: a remote folder's identity and protocol counters.

use vstd::prelude::*;
use vstd::string::*;
use vstd::utf8::encode_utf8;
use crate::names::{decode_mailbox_name, encode_mailbox_name, readable_name, utf7_encoded};

verus! {

/// The semantic flags that a folder listing may carry.
#[derive(Clone, Copy, Debug, PartialEq, Eq, Structural)]
pub enum AttributeEnum {
    NoInferiors,
    NoSelect,
    Marked,
    Unmarked,
    All,
    Archive,
    Drafts,
    Flagged,
    Junk,
    Sent,
    Trash,
    Extension,
    Unknown,
}

/// One flag of a folder, with the payload of a protocol extension.
#[derive(Clone, Debug)]
pub struct Attribute {
    pub attr: AttributeEnum,
    pub extension: Option<String>,
}

pub struct AttributeView {
    pub attr: AttributeEnum,
    pub extension: Option<Seq<char>>,
}

/// The text of an optional string.
pub open spec fn opt_text(o: Option<String>) -> Option<Seq<char>> {
    match o {
        Some(s) => Some(s@),
        None => None,
    }
}

impl View for Attribute {
    type V = AttributeView;

    open spec fn view(&self) -> AttributeView {
        AttributeView { attr: self.attr, extension: opt_text(self.extension) }
    }
}

fn copy_text(o: &Option<String>) -> (r: Option<String>)
    ensures
        opt_text(r) == opt_text(*o),
{
    match o {
        Some(s) => Some(s.clone()),
        None => None,
    }
}

impl Attribute {
    pub fn new(attr: AttributeEnum, extension: Option<String>) -> (r: Self)
        ensures
            r.attr == attr,
            r.extension == extension,
    {
        Attribute { attr, extension }
    }

    /// A copy with the same view.
    pub fn duplicate(&self) -> (r: Self)
        ensures
            r@ == self@,
    {
        Attribute { attr: self.attr, extension: copy_text(&self.extension) }
    }
}

/// A remote folder as the cache holds it.
#[derive(Clone, Debug)]
pub struct MailBox {
    /// Derived from the account and the decoded name; see `mailbox_id`.
    pub id: u64,
    pub account_id: u64,
    /// The decoded, human-readable name.
    pub name: String,
    /// The hierarchy separator, where the server gives one.
    pub delimiter: Option<String>,
    pub attributes: Vec<Attribute>,
    /// The message count last observed.
    pub exists: u32,
    pub unseen: Option<u32>,
    pub uid_next: Option<u32>,
    pub uid_validity: Option<u32>,
}

pub struct MailBoxView {
    pub id: u64,
    pub account_id: u64,
    pub name: Seq<char>,
    pub delimiter: Option<Seq<char>>,
    pub attributes: Seq<AttributeView>,
    pub exists: u32,
    pub unseen: Option<u32>,
    pub uid_next: Option<u32>,
    pub uid_validity: Option<u32>,
}

impl View for MailBox {
    type V = MailBoxView;

    open spec fn view(&self) -> MailBoxView {
        MailBoxView {
            id: self.id,
            account_id: self.account_id,
            name: self.name@,
            delimiter: opt_text(self.delimiter),
            attributes: self.attributes@.map_values(|a: Attribute| a@),
            exists: self.exists,
            unseen: self.unseen,
            uid_next: self.uid_next,
            uid_validity: self.uid_validity,
        }
    }
}

/// The views of a list of mailboxes.
pub open spec fn views(s: Seq<MailBox>) -> Seq<MailBoxView> {
    s.map_values(|m: MailBox| m@)
}

/// Whether some attribute is the cannot-select flag.
pub open spec fn has_no_select(attrs: Seq<AttributeView>) -> bool {
    exists|i: int| 0 <= i < attrs.len() && attrs[i].attr == AttributeEnum::NoSelect
}

/// Whether some attribute is the sent special-use flag.
pub open spec fn has_sent(attrs: Seq<AttributeView>) -> bool {
    exists|i: int| 0 <= i < attrs.len() && attrs[i].attr == AttributeEnum::Sent
}

/// Whether a name is `INBOX`, ASCII letters compared without case.
pub open spec fn is_inbox_name(n: Seq<char>) -> bool {
    &&& n.len() == 5
    &&& (n[0] == 'i' || n[0] == 'I')
    &&& (n[1] == 'n' || n[1] == 'N')
    &&& (n[2] == 'b' || n[2] == 'B')
    &&& (n[3] == 'o' || n[3] == 'O')
    &&& (n[4] == 'x' || n[4] == 'X')
}

pub const FNV_OFFSET: u64 = 0xcbf2_9ce4_8422_2325;

pub const FNV_PRIME: u64 = 0x0000_0100_0000_01b3;

/// FNV-1a over `bytes`, starting from the state `h`.
pub open spec fn fnv_fold(h: u64, bytes: Seq<u8>) -> u64
    decreases bytes.len(),
{
    if bytes.len() == 0 {
        h
    } else {
        fnv_fold((h ^ (bytes[0] as u64)).wrapping_mul(FNV_PRIME), bytes.drop_first())
    }
}

/// The eight bytes of `x`, least significant first.
pub open spec fn le_bytes(x: u64) -> Seq<u8> {
    Seq::new(8, |i: int| ((x >> ((8 * i) as u64)) & 0xffu64) as u8)
}

/// The id of the mailbox `name` of account `account_id`: FNV-1a (64 bits)
/// over the account id's little-endian bytes followed by the name's UTF-8.
pub open spec fn mailbox_id_of(account_id: u64, name: Seq<char>) -> u64 {
    fnv_fold(fnv_fold(FNV_OFFSET, le_bytes(account_id)), encode_utf8(name))
}

fn fnv_extend(h: u64, bytes: &[u8]) -> (r: u64)
    ensures
        r == fnv_fold(h, bytes@),
{
    let mut acc = h;
    let mut i: usize = 0;
    proof {
        assert(bytes@.subrange(0, bytes@.len() as int) =~= bytes@);
    }
    while i < bytes.len()
        invariant
            i <= bytes@.len(),
            fnv_fold(h, bytes@) == fnv_fold(acc, bytes@.subrange(i as int, bytes@.len() as int)),
        decreases bytes.len() - i,
    {
        proof {
            assert(bytes@.subrange(i as int, bytes@.len() as int).drop_first() =~= bytes@.subrange(
                i + 1,
                bytes@.len() as int,
            ));
        }
        acc = (acc ^ (bytes[i] as u64)).wrapping_mul(FNV_PRIME);
        i = i + 1;
    }
    acc
}

/// The deterministic id of a mailbox: the same account and decoded name give
/// the same id in every process.
pub fn mailbox_id(account_id: u64, name: &str) -> (r: u64)
    ensures
        r == mailbox_id_of(account_id, name@),
{
    let mut le: Vec<u8> = Vec::new();
    let mut k: u64 = 0;
    while k < 8
        invariant
            k <= 8,
            le@ == le_bytes(account_id).take(k as int),
        decreases 8 - k,
    {
        let b = ((account_id >> (8 * k)) & 0xffu64) as u8;
        le.push(b);
        assert(le@ =~= le_bytes(account_id).take(k + 1));
        k = k + 1;
    }
    assert(le@ =~= le_bytes(account_id));
    let h = fnv_extend(FNV_OFFSET, le.as_slice());
    fnv_extend(h, name.as_bytes())
}

/// Whether some attribute is the cannot-select flag.
pub fn contains_no_select(attributes: &Vec<Attribute>) -> (r: bool)
    ensures
        r == has_no_select(attributes@.map_values(|a: Attribute| a@)),
{
    let ghost av = attributes@.map_values(|a: Attribute| a@);
    let mut i: usize = 0;
    while i < attributes.len()
        invariant
            i <= attributes.len(),
            av == attributes@.map_values(|a: Attribute| a@),
            forall|k: int| 0 <= k < i ==> av[k].attr != AttributeEnum::NoSelect,
        decreases attributes.len() - i,
    {
        if attributes[i].attr == AttributeEnum::NoSelect {
            assert(av[i as int].attr == AttributeEnum::NoSelect);
            return true;
        }
        i = i + 1;
    }
    false
}

/// Whether some attribute is the sent special-use flag.
pub fn contains_sent(attributes: &Vec<Attribute>) -> (r: bool)
    ensures
        r == has_sent(attributes@.map_values(|a: Attribute| a@)),
{
    let ghost av = attributes@.map_values(|a: Attribute| a@);
    let mut i: usize = 0;
    while i < attributes.len()
        invariant
            i <= attributes.len(),
            av == attributes@.map_values(|a: Attribute| a@),
            forall|k: int| 0 <= k < i ==> av[k].attr != AttributeEnum::Sent,
        decreases attributes.len() - i,
    {
        if attributes[i].attr == AttributeEnum::Sent {
            assert(av[i as int].attr == AttributeEnum::Sent);
            return true;
        }
        i = i + 1;
    }
    false
}

fn char_is(c: char, lower: char, upper: char) -> (r: bool)
    ensures
        r == (c == lower || c == upper),
{
    c == lower || c == upper
}

/// Whether a name is `INBOX`, ASCII letters compared without case.
pub fn is_inbox(name: &str) -> (r: bool)
    ensures
        r == is_inbox_name(name@),
{
    if name.unicode_len() != 5 {
        return false;
    }
    char_is(name.get_char(0), 'i', 'I') && char_is(name.get_char(1), 'n', 'N') && char_is(
        name.get_char(2),
        'b',
        'B',
    ) && char_is(name.get_char(3), 'o', 'O') && char_is(name.get_char(4), 'x', 'X')
}

/// The counters that a read-only examine of a folder reports.
#[derive(Clone, Copy, Debug, PartialEq, Eq, Structural)]
pub struct ExamineInfo {
    pub exists: u32,
    pub unseen: Option<u32>,
    pub uid_next: Option<u32>,
    pub uid_validity: Option<u32>,
}

/// The row of folder `m` once examined for account `account_id`: its
/// deterministic id, the account, and the reported counters. The same
/// folder, account and counters always give the same row.
pub open spec fn examined(m: MailBoxView, account_id: u64, info: ExamineInfo) -> MailBoxView {
    MailBoxView {
        id: mailbox_id_of(account_id, m.name),
        account_id,
        exists: info.exists,
        unseen: info.unseen,
        uid_next: info.uid_next,
        uid_validity: info.uid_validity,
        ..m
    }
}

fn copy_attributes(attributes: &Vec<Attribute>) -> (r: Vec<Attribute>)
    ensures
        r@.map_values(|a: Attribute| a@) == attributes@.map_values(|a: Attribute| a@),
{
    let mut out: Vec<Attribute> = Vec::new();
    let mut i: usize = 0;
    while i < attributes.len()
        invariant
            i <= attributes.len(),
            out@.map_values(|a: Attribute| a@) == attributes@.map_values(|a: Attribute| a@).take(
                i as int,
            ),
        decreases attributes.len() - i,
    {
        let d = attributes[i].duplicate();
        let ghost before = out@;
        out.push(d);
        assert(out@.map_values(|a: Attribute| a@) =~= before.map_values(|a: Attribute| a@).push(d@));
        assert(out@.map_values(|a: Attribute| a@) =~= attributes@.map_values(|a: Attribute| a@).take(
            i + 1,
        ));
        i = i + 1;
    }
    assert(attributes@.map_values(|a: Attribute| a@).take(attributes.len() as int)
        =~= attributes@.map_values(|a: Attribute| a@));
    out
}

impl MailBox {
    /// A mailbox built from a folder listing entry: its name as the server
    /// sends it (decoded here), delimiter and attributes; the account, id and
    /// counters are filled in by the examine step.
    pub fn from_listing(raw_name: &str, delimiter: Option<String>, attributes: Vec<Attribute>) -> (r:
        Self)
        ensures
            r@.name == readable_name(raw_name@),
            r@.delimiter == opt_text(delimiter),
            r@.attributes == attributes@.map_values(|a: Attribute| a@),
            r.id == 0,
            r.account_id == 0,
            r.exists == 0,
            r.unseen is None,
            r.uid_next is None,
            r.uid_validity is None,
    {
        MailBox {
            id: 0,
            account_id: 0,
            name: decode_mailbox_name(raw_name),
            delimiter,
            attributes,
            exists: 0,
            unseen: None,
            uid_next: None,
            uid_validity: None,
        }
    }

    /// A copy with the same view.
    pub fn duplicate(&self) -> (r: Self)
        ensures
            r@ == self@,
    {
        MailBox {
            id: self.id,
            account_id: self.account_id,
            name: self.name.clone(),
            delimiter: copy_text(&self.delimiter),
            attributes: copy_attributes(&self.attributes),
            exists: self.exists,
            unseen: self.unseen,
            uid_next: self.uid_next,
            uid_validity: self.uid_validity,
        }
    }

    /// Assigns the mailbox to `account_id`, gives it its deterministic id and
    /// records what the examine step reported.
    pub fn apply_examine(&mut self, account_id: u64, info: ExamineInfo)
        ensures
            final(self)@ == examined(old(self)@, account_id, info),
    {
        self.account_id = account_id;
        self.id = mailbox_id(account_id, self.name.as_str());
        self.exists = info.exists;
        self.unseen = info.unseen;
        self.uid_next = info.uid_next;
        self.uid_validity = info.uid_validity;
    }

    /// The name in the form the server uses.
    pub fn encoded_name(&self) -> (r: String)
        ensures
            r@ == utf7_encoded(self@.name),
    {
        encode_mailbox_name(self.name.as_str())
    }

    pub fn is_no_select(&self) -> (r: bool)
        ensures
            r == has_no_select(self@.attributes),
    {
        contains_no_select(&self.attributes)
    }
}

/// Filtering by two predicates that agree on every element gives the same
/// result.
pub(crate) proof fn lemma_filter_equiv<A>(s: Seq<A>, p: spec_fn(A) -> bool, q: spec_fn(A) -> bool)
    requires
        forall|i: int| 0 <= i < s.len() ==> p(s[i]) == q(s[i]),
    ensures
        s.filter(p) == s.filter(q),
    decreases s.len(),
{
    broadcast use Seq::lemma_filter_push;

    if s.len() > 0 {
        let init = s.drop_last();
        assert forall|i: int| 0 <= i < init.len() implies p(init[i]) == q(init[i]) by {
            assert(init[i] == s[i]);
        }
        lemma_filter_equiv(init, p, q);
        assert(init.push(s.last()) =~= s);
        assert(p(s[s.len() - 1]) == q(s[s.len() - 1]));
    } else {
        assert(s.filter(p) =~= s.filter(q));
    }
}

} // verus!
