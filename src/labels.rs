//! Choosing the folder of an imported message from its Gmail labels.

use vstd::prelude::*;
use vstd::string::*;
use crate::text::same_text;

verus! {

/// The pieces of `s` between the separators `sep` (one more than there are
/// separators; empty pieces included).
pub open spec fn split_on(s: Seq<char>, sep: char) -> Seq<Seq<char>>
    decreases s.len(),
{
    if s.len() == 0 {
        seq![seq![]]
    } else {
        let rest = split_on(s.drop_last(), sep);
        if s.last() == sep {
            rest.push(seq![])
        } else {
            rest.update(rest.len() - 1, rest.last().push(s.last()))
        }
    }
}

/// Whether `c` has the Unicode `White_Space` property.
pub open spec fn is_white_space(c: char) -> bool {
    let u = c as u32;
    (0x09 <= u <= 0x0d) || u == 0x20 || u == 0x85 || u == 0xa0 || u == 0x1680 || (0x2000 <= u
        <= 0x200a) || u == 0x2028 || u == 0x2029 || u == 0x202f || u == 0x205f || u == 0x3000
}

/// `s` without its leading white space.
pub open spec fn trim_start(s: Seq<char>) -> Seq<char>
    decreases s.len(),
{
    if s.len() > 0 && is_white_space(s[0]) {
        trim_start(s.drop_first())
    } else {
        s
    }
}

/// `s` without its trailing white space.
pub open spec fn trim_end(s: Seq<char>) -> Seq<char>
    decreases s.len(),
{
    if s.len() > 0 && is_white_space(s.last()) {
        trim_end(s.drop_last())
    } else {
        s
    }
}

/// What `str::trim` leaves of a string: the string without leading and
/// trailing white space.
pub open spec fn trimmed(s: Seq<char>) -> Seq<char> {
    trim_end(trim_start(s))
}

/// The trimmed pieces that are not empty, in order.
pub open spec fn nonempty_trimmed(pieces: Seq<Seq<char>>) -> Seq<Seq<char>>
    decreases pieces.len(),
{
    if pieces.len() == 0 {
        seq![]
    } else {
        let rest = nonempty_trimmed(pieces.drop_last());
        let t = trimmed(pieces.last());
        if t.len() > 0 {
            rest.push(t)
        } else {
            rest
        }
    }
}

/// The labels of a comma-separated label header: each piece trimmed, empty
/// ones left out.
pub open spec fn label_list(raw: Seq<char>) -> Seq<Seq<char>> {
    nonempty_trimmed(split_on(raw, ','))
}

/// A label that records a message's state rather than a place.
pub open spec fn is_status_label(l: Seq<char>) -> bool {
    l == "Opened"@ || l == "Unread"@ || l == "Archived"@
}

/// A label that names one of the generic places.
pub open spec fn is_generic_label(l: Seq<char>) -> bool {
    l == "Inbox"@ || l == "Sent"@
}

pub open spec fn is_business_label(l: Seq<char>) -> bool {
    !is_status_label(l) && !is_generic_label(l)
}

/// The first label that is neither a status nor a generic place.
pub open spec fn first_business(labels: Seq<Seq<char>>) -> Option<Seq<char>>
    decreases labels.len(),
{
    if labels.len() == 0 {
        None
    } else if is_business_label(labels[0]) {
        Some(labels[0])
    } else {
        first_business(labels.drop_first())
    }
}

/// The first label that is no status.
pub open spec fn first_place(labels: Seq<Seq<char>>) -> Option<Seq<char>>
    decreases labels.len(),
{
    if labels.len() == 0 {
        None
    } else if !is_status_label(labels[0]) {
        Some(labels[0])
    } else {
        first_place(labels.drop_first())
    }
}

/// The folder for a message with these labels: the first label that is
/// neither a status nor a generic place; else the first that is no status;
/// else the first label; `Unknown` where there is none.
pub open spec fn folder_for(labels: Seq<Seq<char>>) -> Seq<char> {
    match first_business(labels) {
        Some(l) => l,
        None => match first_place(labels) {
            Some(l) => l,
            None => if labels.len() > 0 {
                labels[0]
            } else {
                "Unknown"@
            },
        },
    }
}

/// Relies on `str::trim`, which removes leading and trailing characters that
/// have the `White_Space` property.
#[verifier::external_body]
fn trim_label<'b>(s: &'b str) -> (r: &'b str)
    ensures
        r@ == trimmed(s@),
{
    s.trim()
}

/// The pieces of `s` between commas.
pub fn split_commas(s: &str) -> (r: Vec<String>)
    ensures
        r@.map_values(|p: String| p@) == split_on(s@, ','),
{
    let n = s.unicode_len();
    let mut pieces: Vec<String> = Vec::new();
    let mut start: usize = 0;
    let mut i: usize = 0;
    proof {
        assert(s@.take(0) =~= Seq::<char>::empty());
        assert(pieces@.map_values(|p: String| p@).push(s@.subrange(0, 0)) =~= seq![seq![]]);
    }
    while i < n
        invariant
            n == s@.len(),
            start <= i <= n,
            pieces@.map_values(|p: String| p@).push(s@.subrange(start as int, i as int))
                == split_on(s@.take(i as int), ','),
        decreases n - i,
    {
        let c = s.get_char(i);
        let ghost before = pieces@.map_values(|p: String| p@);
        proof {
            assert(s@.take(i + 1).drop_last() =~= s@.take(i as int));
            assert(s@.take(i + 1).last() == c);
        }
        if c == ',' {
            let piece = s.substring_char(start, i).to_owned();
            pieces.push(piece);
            proof {
                assert(pieces@.map_values(|p: String| p@) =~= before.push(piece@));
                assert(s@.subrange(i + 1, i + 1) =~= Seq::<char>::empty());
            }
            start = i + 1;
        } else {
            proof {
                let cur = before.push(s@.subrange(start as int, i as int));
                assert(s@.subrange(start as int, i + 1) =~= s@.subrange(start as int, i as int).push(c));
                assert(cur.update(cur.len() - 1, cur.last().push(c)) =~= before.push(
                    s@.subrange(start as int, i + 1),
                ));
            }
        }
        i = i + 1;
    }
    pieces.push(s.substring_char(start, n).to_owned());
    assert(s@.take(n as int) =~= s@);
    pieces
}

/// The non-empty trimmed labels of a comma-separated label header.
pub fn parse_labels(raw: &str) -> (r: Vec<String>)
    ensures
        r@.map_values(|l: String| l@) == label_list(raw@),
{
    let pieces = split_commas(raw);
    let ghost pv = pieces@.map_values(|p: String| p@);
    let mut out: Vec<String> = Vec::new();
    let mut i: usize = 0;
    proof {
        assert(pv.take(0) =~= Seq::<Seq<char>>::empty());
        assert(out@.map_values(|l: String| l@) =~= Seq::<Seq<char>>::empty());
    }
    while i < pieces.len()
        invariant
            i <= pieces.len(),
            pv == pieces@.map_values(|p: String| p@),
            pv == split_on(raw@, ','),
            out@.map_values(|l: String| l@) == nonempty_trimmed(pv.take(i as int)),
        decreases pieces.len() - i,
    {
        let t = trim_label(pieces[i].as_str());
        let ghost before = out@.map_values(|l: String| l@);
        proof {
            assert(pv.take(i + 1).drop_last() =~= pv.take(i as int));
            assert(pv.take(i + 1).last() == pieces@[i as int]@);
        }
        if t.unicode_len() > 0 {
            let owned = t.to_owned();
            out.push(owned);
            assert(out@.map_values(|l: String| l@) =~= before.push(owned@));
        }
        i = i + 1;
    }
    assert(pv.take(pieces.len() as int) =~= pv);
    out
}

fn is_status(l: &str) -> (r: bool)
    ensures
        r == is_status_label(l@),
{
    same_text(l, "Opened") || same_text(l, "Unread") || same_text(l, "Archived")
}

fn is_business(l: &str) -> (r: bool)
    ensures
        r == is_business_label(l@),
{
    !is_status(l) && !same_text(l, "Inbox") && !same_text(l, "Sent")
}

/// The folder for a message whose labels are `labels`.
pub fn choose_folder(labels: &Vec<String>) -> (r: String)
    ensures
        r@ == folder_for(labels@.map_values(|l: String| l@)),
{
    let ghost lv = labels@.map_values(|l: String| l@);
    let n = labels.len();
    let mut business: Option<usize> = None;
    let mut place: Option<usize> = None;
    let mut i: usize = 0;
    proof {
        assert(lv.subrange(0, n as int) =~= lv);
    }
    while i < n
        invariant
            n == labels.len(),
            lv == labels@.map_values(|l: String| l@),
            i <= n,
            match business {
                Some(j) => j < n && first_business(lv) == Some(lv[j as int]),
                None => first_business(lv) == first_business(lv.subrange(i as int, n as int)),
            },
            match place {
                Some(j) => j < n && first_place(lv) == Some(lv[j as int]),
                None => first_place(lv) == first_place(lv.subrange(i as int, n as int)),
            },
        decreases n - i,
    {
        let l = labels[i].as_str();
        proof {
            assert(lv.subrange(i as int, n as int).drop_first() =~= lv.subrange(i + 1, n as int));
            assert(lv.subrange(i as int, n as int)[0] == lv[i as int]);
        }
        if business.is_none() && is_business(l) {
            business = Some(i);
        }
        if place.is_none() && !is_status(l) {
            place = Some(i);
        }
        i = i + 1;
    }
    match business {
        Some(j) => labels[j].clone(),
        None => match place {
            Some(j) => labels[j].clone(),
            None => if n > 0 {
                labels[0].clone()
            } else {
                "Unknown".to_owned()
            },
        },
    }
}

/// The folder for a message whose comma-separated label header is
/// `labels_raw`.
pub fn determine_folder(labels_raw: &str) -> (r: String)
    ensures
        r@ == folder_for(label_list(labels_raw@)),
{
    let labels = parse_labels(labels_raw);
    choose_folder(&labels)
}

} // verus!
