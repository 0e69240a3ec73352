//! Extraction of the authoritative `data: ` payload of one event block.
use vstd::prelude::*;
use crate::bytes::{copy_range, starts_with};
use crate::frame::LF;

verus! {

/// The carriage return byte.
pub const CR: u8 = 13;

/// The bytes of the payload line marker `data: `.
pub open spec fn data_marker() -> Seq<u8> {
    seq![100u8, 97u8, 116u8, 97u8, 58u8, 32u8]
}

/// The bytes of the end-of-stream sentinel `[DONE]`.
pub open spec fn done_marker() -> Seq<u8> {
    seq![91u8, 68u8, 79u8, 78u8, 69u8, 93u8]
}

/// A line without its trailing carriage return, if it has one.
pub open spec fn strip_cr(line: Seq<u8>) -> Seq<u8> {
    if line.len() > 0 && line.last() == CR {
        line.drop_last()
    } else {
        line
    }
}

/// True when `line` starts with the payload line marker.
pub open spec fn is_data_line(line: Seq<u8>) -> bool {
    line.len() >= data_marker().len() && line.subrange(0, data_marker().len() as int)
        == data_marker()
}

/// Scans the lines of `b` from the line that starts at `ls`, with `i` the next
/// byte to look at: the text after the marker on the first payload line.
pub open spec fn payload_scan(b: Seq<u8>, ls: int, i: int) -> Option<Seq<u8>>
    decreases b.len() - i,
{
    if i < 0 || ls < 0 || ls > i || i > b.len() {
        None
    } else if i == b.len() || b[i] == LF {
        let line = strip_cr(b.subrange(ls, i));
        if is_data_line(line) {
            Some(line.subrange(data_marker().len() as int, line.len() as int))
        } else if i == b.len() {
            None
        } else {
            payload_scan(b, i + 1, i + 1)
        }
    } else {
        payload_scan(b, ls, i + 1)
    }
}

/// The payload of the first `data: ` line of a block, if it has one.
pub open spec fn first_payload(b: Seq<u8>) -> Option<Seq<u8>> {
    payload_scan(b, 0, 0)
}

/// True for the ASCII whitespace bytes: space, tab, line feed, vertical tab,
/// form feed and carriage return.
pub open spec fn is_space(c: u8) -> bool {
    c == 32 || (9 <= c && c <= 13)
}

pub open spec fn trim_start(s: Seq<u8>) -> Seq<u8>
    decreases s.len(),
{
    if s.len() > 0 && is_space(s[0]) {
        trim_start(s.drop_first())
    } else {
        s
    }
}

pub open spec fn trim_end(s: Seq<u8>) -> Seq<u8>
    decreases s.len(),
{
    if s.len() > 0 && is_space(s.last()) {
        trim_end(s.drop_last())
    } else {
        s
    }
}

/// True when the payload is the sentinel, whitespace around it aside.
pub open spec fn is_sentinel(p: Seq<u8>) -> bool {
    trim_end(trim_start(p)) == done_marker()
}

/// What a block carries.
#[derive(Debug, Clone, PartialEq, Eq)]
pub enum BlockPayload {
    /// No payload line, or an empty payload: nothing to decode.
    Absent,
    /// The end-of-stream sentinel: consumed silently.
    Sentinel,
    /// A JSON document to decode.
    Data(Vec<u8>),
}

/// The mathematical content of a `BlockPayload`.
pub enum PayloadView {
    Absent,
    Sentinel,
    Data(Seq<u8>),
}

impl View for BlockPayload {
    type V = PayloadView;

    open spec fn view(&self) -> PayloadView {
        match self {
            BlockPayload::Absent => PayloadView::Absent,
            BlockPayload::Sentinel => PayloadView::Sentinel,
            BlockPayload::Data(d) => PayloadView::Data(d@),
        }
    }
}

/// What the block `b` carries.
pub open spec fn payload_of(b: Seq<u8>) -> PayloadView {
    match first_payload(b) {
        None => PayloadView::Absent,
        Some(p) => if p.len() == 0 {
            PayloadView::Absent
        } else if is_sentinel(p) {
            PayloadView::Sentinel
        } else {
            PayloadView::Data(p)
        },
    }
}

/// The payload of the first `data: ` line of `b`.
pub fn first_payload_of(b: &[u8]) -> (r: Option<Vec<u8>>)
    ensures
        match r {
            Some(p) => first_payload(b@) == Some(p@),
            None => first_payload(b@) is None,
        },
{
    let marker: Vec<u8> = vec![100u8, 97u8, 116u8, 97u8, 58u8, 32u8];
    assert(marker@ =~= data_marker());
    let n = b.len();
    let mut ls: usize = 0;
    let mut i: usize = 0;
    while i <= n
        invariant
            n == b@.len(),
            ls <= i <= n,
            marker@ == data_marker(),
            first_payload(b@) == payload_scan(b@, ls as int, i as int),
        decreases n - i,
    {
        if i == n || b[i] == LF {
            let mut end = i;
            if end > ls && b[end - 1] == CR {
                end = end - 1;
            }
            let line = copy_range(b, ls, end);
            assert(line@ =~= strip_cr(b@.subrange(ls as int, i as int)));
            if starts_with(line.as_slice(), marker.as_slice()) {
                return Some(copy_range(line.as_slice(), 6, line.len()));
            }
            if i == n {
                return None;
            }
            ls = i + 1;
        }
        i = i + 1;
    }
    None
}

/// True when `p` is the sentinel, whitespace around it aside.
fn check_sentinel(p: &[u8]) -> (r: bool)
    ensures
        r == is_sentinel(p@),
{
    let n = p.len();
    let mut a: usize = 0;
    assert(p@.subrange(0, n as int) =~= p@);
    while a < n && (p[a] == 32 || (9 <= p[a] && p[a] <= 13))
        invariant
            a <= n == p@.len(),
            trim_start(p@) == trim_start(p@.subrange(a as int, n as int)),
        decreases n - a,
    {
        assert(p@.subrange(a as int, n as int).drop_first() =~= p@.subrange(a + 1, n as int));
        a = a + 1;
    }
    let mut z: usize = n;
    assert(p@.subrange(a as int, n as int) =~= trim_start(p@));
    while z > a && (p[z - 1] == 32 || (9 <= p[z - 1] && p[z - 1] <= 13))
        invariant
            a <= z <= n == p@.len(),
            trim_start(p@) == p@.subrange(a as int, n as int),
            trim_end(trim_start(p@)) == trim_end(p@.subrange(a as int, z as int)),
        decreases z,
    {
        assert(p@.subrange(a as int, z as int).drop_last() =~= p@.subrange(a as int, z - 1));
        z = z - 1;
    }
    assert(trim_end(p@.subrange(a as int, z as int)) == p@.subrange(a as int, z as int));
    let core = copy_range(p, a, z);
    assert(core@ == trim_end(trim_start(p@)));
    let done: Vec<u8> = vec![91u8, 68u8, 79u8, 78u8, 69u8, 93u8];
    assert(done@ =~= done_marker());
    if core.len() != 6 {
        return false;
    }
    let same = starts_with(core.as_slice(), done.as_slice());
    assert(core@.subrange(0, 6) =~= core@);
    same
}

/// Classifies the block `b` by what it carries.
pub fn block_payload(b: &[u8]) -> (r: BlockPayload)
    ensures
        r@ == payload_of(b@),
{
    match first_payload_of(b) {
        None => BlockPayload::Absent,
        Some(p) => {
            if p.len() == 0 {
                BlockPayload::Absent
            } else if check_sentinel(p.as_slice()) {
                BlockPayload::Sentinel
            } else {
                BlockPayload::Data(p)
            }
        },
    }
}

} // verus!
