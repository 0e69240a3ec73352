//! Frame reassembly: raw chunks of an event stream are accumulated and split
//! into event blocks at each blank line (two consecutive line feeds).
use vstd::prelude::*;
use crate::bytes::copy_range;

verus! {

/// The line feed byte.
pub const LF: u8 = 10;

/// True when a block delimiter (two line feeds) starts at index `i` of `s`.
pub open spec fn delimiter_at(s: Seq<u8>, i: int) -> bool {
    0 <= i && i + 1 < s.len() && s[i] == LF && s[i + 1] == LF
}

/// Splits `s` into complete blocks and the unterminated rest, scanning from
/// index `i` with the current block starting at `start`.
///
/// Each delimiter found, leftmost first, ends one block; the delimiter itself
/// belongs to no block.
pub open spec fn scan(s: Seq<u8>, start: int, i: int) -> (Seq<Seq<u8>>, Seq<u8>)
    decreases s.len() - i,
{
    if i < 0 || i + 1 >= s.len() {
        (Seq::empty(), s.subrange(start, s.len() as int))
    } else if delimiter_at(s, i) {
        let (blocks, rest) = scan(s, i + 2, i + 2);
        (seq![s.subrange(start, i)] + blocks, rest)
    } else {
        scan(s, start, i + 1)
    }
}

/// The complete event blocks of `s`, in order, and the text after the last
/// delimiter.
pub open spec fn frames(s: Seq<u8>) -> (Seq<Seq<u8>>, Seq<u8>) {
    scan(s, 0, 0)
}

/// The views of a sequence of byte vectors.
pub open spec fn views(v: Seq<Vec<u8>>) -> Seq<Seq<u8>> {
    v.map_values(|b: Vec<u8>| b@)
}

/// What one chunk does to the buffered rest: a chunk that is not valid UTF-8
/// is dropped and yields no block.
pub open spec fn ingest_spec(rest: Seq<u8>, chunk: Seq<u8>) -> (Seq<Seq<u8>>, Seq<u8>) {
    if vstd::utf8::valid_utf8(chunk) {
        frames(rest + chunk)
    } else {
        (Seq::empty(), rest)
    }
}

/// Feeds `chunks` one at a time, starting from the buffered `rest`: all blocks
/// produced, in order, and the rest left at the end.
pub open spec fn feed_all(rest: Seq<u8>, chunks: Seq<Seq<u8>>) -> (Seq<Seq<u8>>, Seq<u8>)
    decreases chunks.len(),
{
    if chunks.len() == 0 {
        (Seq::empty(), rest)
    } else {
        let (b1, r1) = ingest_spec(rest, chunks[0]);
        let (b2, r2) = feed_all(r1, chunks.drop_first());
        (b1 + b2, r2)
    }
}

/// The concatenation of all chunks.
pub open spec fn concat(chunks: Seq<Seq<u8>>) -> Seq<u8>
    decreases chunks.len(),
{
    if chunks.len() == 0 {
        Seq::empty()
    } else {
        chunks[0] + concat(chunks.drop_first())
    }
}

/// No delimiter starts at an index in `[a, b)` of `s`.
pub open spec fn no_delimiter_in(s: Seq<u8>, a: int, b: int) -> bool {
    forall|j: int| a <= j < b ==> !delimiter_at(s, j)
}

/// Scanning a suffix of `s` gives the same blocks and rest.
proof fn lemma_scan_shift(s: Seq<u8>, k: int, start: int, i: int)
    requires
        0 <= k <= start <= i <= s.len(),
    ensures
        scan(s, start, i) == scan(s.subrange(k, s.len() as int), start - k, i - k),
    decreases s.len() - i,
{
    let t = s.subrange(k, s.len() as int);
    if i + 1 >= s.len() {
        assert(s.subrange(start, s.len() as int) =~= t.subrange(start - k, t.len() as int));
    } else {
        assert(delimiter_at(s, i) == delimiter_at(t, i - k));
        if delimiter_at(s, i) {
            lemma_scan_shift(s, k, i + 2, i + 2);
            assert(s.subrange(start, i) =~= t.subrange(start - k, i - k));
        } else {
            lemma_scan_shift(s, k, start, i + 1);
        }
    }
}

/// Positions known to hold no delimiter can be scanned again without effect.
proof fn lemma_scan_skip(s: Seq<u8>, st: int, i: int)
    requires
        0 <= st <= i <= s.len(),
        no_delimiter_in(s, st, i),
    ensures
        scan(s, st, i) == scan(s, st, st),
    decreases i - st,
{
    if i > st {
        let j = i - 1;
        lemma_scan_skip(s, st, j);
        if j + 1 >= s.len() {
            assert(scan(s, st, j) == scan(s, st, i));
        } else {
            assert(!delimiter_at(s, j));
            assert(scan(s, st, j) == scan(s, st, i));
        }
    }
}

proof fn lemma_scan_append(x: Seq<u8>, y: Seq<u8>, start: int, i: int)
    requires
        0 <= start <= i <= x.len(),
        no_delimiter_in(x + y, start, i),
    ensures
        scan(x + y, start, i) == (scan(x, start, i).0 + frames(scan(x, start, i).1 + y).0, frames(
            scan(x, start, i).1 + y,
        ).1),
    decreases x.len() - i,
{
    let xy = x + y;
    if i + 1 >= x.len() {
        let t = xy.subrange(start, xy.len() as int);
        assert(t =~= x.subrange(start, x.len() as int) + y);
        lemma_scan_shift(xy, start, start, i);
        assert forall|j: int| 0 <= j < i - start implies !delimiter_at(t, j) by {
            assert(delimiter_at(t, j) == delimiter_at(xy, j + start));
        }
        lemma_scan_skip(t, 0, i - start);
        assert(Seq::<Seq<u8>>::empty() + frames(t).0 =~= frames(t).0);
    } else {
        assert(delimiter_at(xy, i) == delimiter_at(x, i));
        if delimiter_at(x, i) {
            lemma_scan_append(x, y, i + 2, i + 2);
            assert(xy.subrange(start, i) =~= x.subrange(start, i));
            let f = frames(scan(x, i + 2, i + 2).1 + y);
            assert(seq![x.subrange(start, i)] + (scan(x, i + 2, i + 2).0 + f.0) =~= (seq![
                x.subrange(start, i),
            ] + scan(x, i + 2, i + 2).0) + f.0);
        } else {
            lemma_scan_append(x, y, start, i + 1);
        }
    }
}

/// Splitting text in two and framing the second part after what the first left
/// over gives the blocks and rest of framing the whole.
pub proof fn lemma_frames_append(x: Seq<u8>, y: Seq<u8>)
    ensures
        frames(x + y) == (frames(x).0 + frames(frames(x).1 + y).0, frames(frames(x).1 + y).1),
{
    lemma_scan_append(x, y, 0, 0);
}

/// The rest left by framing holds no complete block.
pub proof fn lemma_rest_has_no_block(s: Seq<u8>)
    ensures
        frames(frames(s).1) == (Seq::<Seq<u8>>::empty(), frames(s).1),
{
    lemma_frames_append(s, Seq::empty());
    assert(s + Seq::<u8>::empty() =~= s);
    assert(frames(s).1 + Seq::<u8>::empty() =~= frames(s).1);
    let r = frames(s).1;
    assert(frames(s).0.len() == frames(s).0.len() + frames(r).0.len());
    assert(frames(r).0 =~= Seq::<Seq<u8>>::empty());
}

proof fn lemma_feed_all(rest: Seq<u8>, chunks: Seq<Seq<u8>>)
    requires
        frames(rest) == (Seq::<Seq<u8>>::empty(), rest),
        forall|k: int| 0 <= k < chunks.len() ==> vstd::utf8::valid_utf8(#[trigger] chunks[k]),
    ensures
        feed_all(rest, chunks) == frames(rest + concat(chunks)),
        vstd::utf8::valid_utf8(concat(chunks)),
    decreases chunks.len(),
{
    if chunks.len() == 0 {
        assert(rest + concat(chunks) =~= rest);
        assert(Seq::<u8>::empty() =~= concat(chunks));
    } else {
        let c = chunks[0];
        let cs = chunks.drop_first();
        assert(vstd::utf8::valid_utf8(chunks[0]));
        let r1 = frames(rest + c).1;
        lemma_rest_has_no_block(rest + c);
        assert forall|k: int| 0 <= k < cs.len() implies vstd::utf8::valid_utf8(#[trigger] cs[k]) by {
            assert(cs[k] == chunks[k + 1]);
        }
        lemma_feed_all(r1, cs);
        lemma_frames_append(rest + c, concat(cs));
        assert(rest + concat(chunks) =~= (rest + c) + concat(cs));
        vstd::utf8::valid_utf8_concat(c, concat(cs));
    }
}

/// Frame reassembly does not depend on where the chunk boundaries fall: feeding
/// valid UTF-8 chunks one at a time to an empty buffer yields the same blocks,
/// in the same order, and the same rest, as feeding their concatenation as a
/// single chunk.
pub proof fn lemma_chunking_invariant(chunks: Seq<Seq<u8>>)
    requires
        forall|k: int| 0 <= k < chunks.len() ==> vstd::utf8::valid_utf8(#[trigger] chunks[k]),
    ensures
        feed_all(Seq::empty(), chunks) == feed_all(Seq::empty(), seq![concat(chunks)]),
{
    let e = Seq::<u8>::empty();
    assert(frames(e) == (Seq::<Seq<u8>>::empty(), e));
    lemma_feed_all(e, chunks);
    let one = seq![concat(chunks)];
    assert(one.drop_first() =~= Seq::<Seq<u8>>::empty());
    assert(feed_all(frames(e + concat(chunks)).1, one.drop_first()) == (Seq::<Seq<u8>>::empty(), frames(e + concat(chunks)).1));
    assert(frames(e + concat(chunks)).0 + Seq::<Seq<u8>>::empty() =~= frames(e + concat(chunks)).0);
}

/// Relies on `std::str::from_utf8`: it accepts exactly the valid UTF-8 byte
/// sequences; the error's text is named by `utf8_error_text`.
#[verifier::external_body]
fn check_utf8(b: &[u8]) -> (r: Result<(), String>)
    ensures
        r is Ok <==> vstd::utf8::valid_utf8(b@),
        r matches Err(e) ==> e@ == utf8_error_text(b@),
{
    match std::str::from_utf8(b) {
        Ok(_) => Ok(()),
        Err(e) => Err(e.to_string()),
    }
}

/// The text of the error that `std::str::from_utf8` reports for `b`.
pub uninterp spec fn utf8_error_text(b: Seq<u8>) -> Seq<char>;

/// Accumulates received text and hands out complete event blocks.
pub struct Reassembler {
    rest: Vec<u8>,
}

impl Reassembler {
    /// The received text not yet consumed as a complete block.
    pub closed spec fn buffered(&self) -> Seq<u8> {
        self.rest@
    }

    pub fn new() -> (r: Reassembler)
        ensures
            r.buffered() == Seq::<u8>::empty(),
    {
        Reassembler { rest: Vec::new() }
    }

    /// Appends one chunk and returns the blocks it completes, in order.
    ///
    /// A chunk that is not valid UTF-8 is not appended: the error text of the
    /// decoder is returned and the buffer is unchanged.
    pub fn ingest(&mut self, chunk: &[u8]) -> (r: Result<Vec<Vec<u8>>, String>)
        ensures
            r is Ok <==> vstd::utf8::valid_utf8(chunk@),
            r matches Ok(blocks) ==> (views(blocks@), final(self).buffered()) == ingest_spec(
                old(self).buffered(),
                chunk@,
            ),
            r matches Err(e) ==> e@ == utf8_error_text(chunk@) && final(self).buffered()
                == old(self).buffered(),
    {
        match check_utf8(chunk) {
            Err(e) => Err(e),
            Ok(()) => {
                let mut text: Vec<u8> = copy_range(self.rest.as_slice(), 0, self.rest.len());
                let mut k: usize = 0;
                while k < chunk.len()
                    invariant
                        k <= chunk@.len(),
                        text@ == old(self).rest@ + chunk@.subrange(0, k as int),
                    decreases chunk@.len() - k,
                {
                    text.push(chunk[k]);
                    k = k + 1;
                    assert(text@ =~= old(self).rest@ + chunk@.subrange(0, k as int));
                }
                assert(chunk@.subrange(0, chunk@.len() as int) =~= chunk@);
                let (blocks, rest) = split_frames(&text);
                self.rest = rest;
                Ok(blocks)
            },
        }
    }
}

/// Splits `text` into its complete blocks and the rest, as `frames` says.
pub fn split_frames(text: &Vec<u8>) -> (r: (Vec<Vec<u8>>, Vec<u8>))
    ensures
        (views(r.0@), r.1@) == frames(text@),
{
    let n = text.len();
    let mut blocks: Vec<Vec<u8>> = Vec::new();
    let mut start: usize = 0;
    let mut i: usize = 0;
    while n > 0 && i < n - 1
        invariant
            n == text@.len(),
            start <= i <= n,
            frames(text@) == (views(blocks@) + scan(text@, start as int, i as int).0, scan(
                text@,
                start as int,
                i as int,
            ).1),
        decreases n - i,
    {
        if text[i] == LF && text[i + 1] == LF {
            let block = copy_range(text.as_slice(), start, i);
            let ghost before = blocks@;
            let ghost (s0, i0) = (start as int, i as int);
            blocks.push(block);
            assert(views(blocks@) =~= views(before) + seq![text@.subrange(s0, i0)]);
            i = i + 2;
            start = i;
            assert(views(blocks@) + scan(text@, start as int, i as int).0 =~= views(before) + (
            seq![text@.subrange(s0, i0)] + scan(text@, start as int, i as int).0));
        } else {
            i = i + 1;
        }
    }
    let rest = copy_range(text.as_slice(), start, n);
    assert(views(blocks@) + Seq::<Seq<u8>>::empty() =~= views(blocks@));
    (blocks, rest)
}

} // verus!
