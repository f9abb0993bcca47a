//! Splitting an mbox archive into its messages.
//!
//! A message starts at a "from line": the bytes `From ` at the start of the
//! data or right after a newline. Its body runs from the end of that line up
//! to the next from line, or to the end of the data.

use vstd::prelude::*;
use vstd::slice::slice_subrange;

verus! {

/// The bytes `From `.
pub open spec fn from_marker() -> Seq<u8> {
    seq![70u8, 114u8, 111u8, 109u8, 32u8]
}

/// Whether a from line starts at `i`.
pub open spec fn is_from_at(d: Seq<u8>, i: int) -> bool {
    &&& 0 <= i
    &&& i + 5 <= d.len()
    &&& d.subrange(i, i + 5) == from_marker()
    &&& (i == 0 || d[i - 1] == 10u8)
}

/// The position just past the line that holds `i`: past its newline, or the
/// end of the data where the line has none.
pub open spec fn line_end(d: Seq<u8>, i: int) -> int
    decreases d.len() - i,
{
    if i >= d.len() {
        d.len() as int
    } else if d[i] == 10u8 {
        i + 1
    } else {
        line_end(d, i + 1)
    }
}

/// The positions of the from lines at or after `pos`, in increasing order.
pub open spec fn from_lines(d: Seq<u8>, pos: int) -> Seq<int>
    decreases d.len() - pos,
{
    if pos >= d.len() {
        seq![]
    } else if is_from_at(d, pos) {
        seq![pos] + from_lines(d, pos + 1)
    } else {
        from_lines(d, pos + 1)
    }
}

/// The messages opened by the from lines `f`: each is its offset and its
/// body, from the end of its from line to the next from line or the end.
pub open spec fn messages_of(d: Seq<u8>, f: Seq<int>) -> Seq<(int, Seq<u8>)> {
    Seq::new(
        f.len(),
        |j: int|
            {
                let s = line_end(d, f[j]);
                let e = if j + 1 < f.len() {
                    f[j + 1]
                } else {
                    d.len() as int
                };
                (s, d.subrange(s, e))
            },
    )
}

/// The messages of an mbox archive, in order.
pub open spec fn mbox_messages(d: Seq<u8>) -> Seq<(int, Seq<u8>)> {
    messages_of(d, from_lines(d, 0))
}

/// What a reader still has to hand out: the message whose body started at
/// `open` (if any), closed by the next from line at or after `pos`, then the
/// messages of the from lines at or after `pos`.
pub open spec fn pending_messages(d: Seq<u8>, open: Option<int>, pos: int) -> Seq<(int, Seq<u8>)> {
    let f = from_lines(d, pos);
    match open {
        None => messages_of(d, f),
        Some(b) => {
            let e = if f.len() > 0 {
                f[0]
            } else {
                d.len() as int
            };
            seq![(b, d.subrange(b, e))] + messages_of(d, f)
        },
    }
}

proof fn lemma_line_end(d: Seq<u8>, i: int)
    requires
        0 <= i < d.len(),
    ensures
        i < line_end(d, i) <= d.len(),
        forall|q: int| i <= q < line_end(d, i) - 1 ==> d[q] != 10u8,
    decreases d.len() - i,
{
    if d[i] == 10u8 {
        assert(line_end(d, i) == i + 1);
    } else {
        if i + 1 < d.len() {
            lemma_line_end(d, i + 1);
        }
        assert(line_end(d, i) == line_end(d, i + 1));
    }
}

proof fn lemma_no_from_between(d: Seq<u8>, k: int, e: int)
    requires
        0 <= k <= e <= d.len(),
        forall|q: int| k <= q < e ==> !is_from_at(d, q),
    ensures
        from_lines(d, k) == from_lines(d, e),
    decreases e - k,
{
    if k < e {
        lemma_no_from_between(d, k + 1, e);
    }
}

/// No from line starts inside a from line.
proof fn lemma_skip_line(d: Seq<u8>, p: int)
    requires
        0 <= p < d.len(),
    ensures
        from_lines(d, p + 1) == from_lines(d, line_end(d, p)),
{
    lemma_line_end(d, p);
    let le = line_end(d, p);
    assert forall|q: int| p + 1 <= q < le implies !is_from_at(d, q) by {
        assert(d[q - 1] != 10u8);
    }
    lemma_no_from_between(d, p + 1, le);
}

proof fn lemma_messages_prepend(d: Seq<u8>, p: int, f: Seq<int>)
    ensures
        messages_of(d, seq![p] + f) == seq![
            (
                line_end(d, p),
                d.subrange(
                    line_end(d, p),
                    if f.len() > 0 {
                        f[0]
                    } else {
                        d.len() as int
                    },
                ),
            ),
        ] + messages_of(d, f),
{
    let lhs = messages_of(d, seq![p] + f);
    let rhs = seq![
        (
            line_end(d, p),
            d.subrange(
                line_end(d, p),
                if f.len() > 0 {
                    f[0]
                } else {
                    d.len() as int
                },
            ),
        ),
    ] + messages_of(d, f);
    assert forall|j: int| 0 <= j < lhs.len() implies lhs[j] == rhs[j] by {
        if j > 0 {
            assert((seq![p] + f)[j] == f[j - 1]);
            if j + 1 < lhs.len() {
                assert((seq![p] + f)[j + 1] == f[j]);
            }
        }
    }
    assert(lhs =~= rhs);
}

/// One message of an archive: the offset of its body and the body itself.
pub struct Entry<'a> {
    pub offset: usize,
    pub data: &'a [u8],
}

/// Hands out the messages of an mbox archive one by one.
pub struct MboxReader<'a> {
    data: &'a [u8],
    len: usize,
    scan_pos: usize,
    body_start: Option<usize>,
}

impl<'a> MboxReader<'a> {
    /// The archive that the reader splits.
    pub closed spec fn bytes(&self) -> Seq<u8> {
        self.data@
    }

    pub closed spec fn wf(&self) -> bool {
        &&& self.len == self.data@.len()
        &&& self.scan_pos <= self.len
        &&& match self.body_start {
            Some(b) => b <= self.scan_pos,
            None => true,
        }
    }

    /// The messages that the reader has yet to hand out.
    pub closed spec fn pending(&self) -> Seq<(int, Seq<u8>)> {
        pending_messages(
            self.data@,
            match self.body_start {
                Some(b) => Some(b as int),
                None => None,
            },
            self.scan_pos as int,
        )
    }

    pub fn new(data: &'a [u8]) -> (r: Self)
        ensures
            r.wf(),
            r.bytes() == data@,
            r.pending() == mbox_messages(data@),
    {
        MboxReader { data, len: data.len(), scan_pos: 0, body_start: None }
    }

    /// Whether a from line starts at `i`.
    pub fn is_from_line(&self, i: usize) -> (r: bool)
        requires
            self.wf(),
        ensures
            r == is_from_at(self.bytes(), i as int),
    {
        if self.len < 5 || i > self.len - 5 {
            return false;
        }
        let d = self.data;
        let marker = d[i] == 70u8 && d[i + 1] == 114u8 && d[i + 2] == 111u8 && d[i + 3] == 109u8
            && d[i + 4] == 32u8;
        proof {
            if marker {
                assert(d@.subrange(i as int, i + 5) =~= from_marker());
            } else {
                assert(d@.subrange(i as int, i + 5) != from_marker()) by {
                    let s = d@.subrange(i as int, i + 5);
                    assert(s[0] == d@[i as int] && s[1] == d@[i + 1] && s[2] == d@[i + 2]
                        && s[3] == d@[i + 3] && s[4] == d@[i + 4]);
                }
            }
        }
        if i == 0 {
            marker
        } else {
            d[i - 1] == 10u8 && marker
        }
    }

    /// The position just past the line that holds `i`.
    pub fn skip_from_line(&self, i: usize) -> (r: usize)
        requires
            self.wf(),
            i <= self.bytes().len(),
        ensures
            r == line_end(self.bytes(), i as int),
    {
        let mut j = i;
        while j < self.len && self.data[j] != 10u8
            invariant
                self.wf(),
                i <= j <= self.len,
                line_end(self.bytes(), i as int) == line_end(self.bytes(), j as int),
            decreases self.len - j,
        {
            j = j + 1;
        }
        if j < self.len {
            j = j + 1;
        }
        j
    }

    /// The next message, or `None` once every message has been handed out.
    pub fn next(&mut self) -> (r: Option<Entry<'a>>)
        requires
            old(self).wf(),
        ensures
            final(self).wf(),
            final(self).bytes() == old(self).bytes(),
            match r {
                None => old(self).pending().len() == 0 && final(self).pending().len() == 0,
                Some(e) => {
                    &&& old(self).pending().len() > 0
                    &&& old(self).pending()[0] == (e.offset as int, e.data@)
                    &&& final(self).pending() == old(self).pending().drop_first()
                },
            },
    {
        let ghost d = self.data@;
        while self.scan_pos < self.len
            invariant
                self.wf(),
                self.data@ == d,
                self.bytes() == old(self).bytes(),
                self.pending() == old(self).pending(),
            decreases self.len - self.scan_pos,
        {
            let pos = self.scan_pos;
            if self.is_from_line(pos) {
                let body_pos = self.skip_from_line(pos);
                proof {
                    lemma_line_end(d, pos as int);
                    lemma_skip_line(d, pos as int);
                    lemma_messages_prepend(d, pos as int, from_lines(d, pos + 1));
                }
                match self.body_start {
                    Some(start) => {
                        let entry = Entry { offset: start, data: slice_subrange(self.data, start, pos) };
                        self.body_start = Some(body_pos);
                        self.scan_pos = body_pos;
                        assert(self.pending() =~= old(self).pending().drop_first());
                        return Some(entry);
                    },
                    None => {
                        self.body_start = Some(body_pos);
                        self.scan_pos = body_pos;
                    },
                }
            } else {
                self.scan_pos = pos + 1;
            }
        }
        match self.body_start {
            Some(start) => {
                let entry = Entry { offset: start, data: slice_subrange(self.data, start, self.len) };
                self.body_start = None;
                assert(self.pending() =~= old(self).pending().drop_first());
                Some(entry)
            },
            None => None,
        }
    }
}

} // verus!
