//! Decoding of a streamed reply: the body arrives in chunks cut anywhere,
//! holds lines `data: <json>`, and ends with the line `data: [DONE]`.

use vstd::prelude::*;
use crate::json::{json_string_at, string_at, string_opt_view};

verus! {

/// Line feed, the byte that ends a line.
pub const LF: u8 = 10;

/// Carriage return, which may stand before a line feed.
pub const CR: u8 = 13;

/// The marker that opens every record line: `data: `.
pub open spec fn data_prefix() -> Seq<u8> {
    seq![100u8, 97u8, 116u8, 97u8, 58u8, 32u8]
}

/// The payload that ends the stream: `[DONE]`.
pub open spec fn done_marker() -> Seq<u8> {
    seq![91u8, 68u8, 79u8, 78u8, 69u8, 93u8]
}

/// Where the incremental text sits in a payload.
pub open spec fn content_pointer() -> Seq<char> {
    "/choices/0/delta/content"@
}

/// A line without the carriage return that may end it.
pub open spec fn strip_cr(line: Seq<u8>) -> Seq<u8> {
    if line.len() > 0 && line.last() == CR {
        line.drop_last()
    } else {
        line
    }
}

/// The payload of a record line; `None` for any other line.
pub open spec fn payload_of(line: Seq<u8>) -> Option<Seq<u8>> {
    let l = strip_cr(line);
    if l.len() >= 6 && l.subrange(0, 6) == data_prefix() {
        Some(l.subrange(6, l.len() as int))
    } else {
        None
    }
}

pub open spec fn is_sentinel(line: Seq<u8>) -> bool {
    payload_of(line) == Some(done_marker())
}

/// The fragment that a complete line yields, if any.
pub open spec fn line_fragment(line: Seq<u8>) -> Option<Seq<char>> {
    match payload_of(line) {
        Some(p) => if p == done_marker() {
            None
        } else {
            json_string_at(p, content_pointer())
        },
        None => None,
    }
}

pub open spec fn fragment_seq(line: Seq<u8>) -> Seq<Seq<char>> {
    match line_fragment(line) {
        Some(c) => seq![c],
        None => seq![],
    }
}

/// The decoder's state: the bytes of a line not yet complete, and whether
/// the end marker has been seen.
pub ghost struct DecoderView {
    pub pending: Seq<u8>,
    pub finished: bool,
}

/// Decoding `input` after the unfinished line `pending`: the fragments of
/// the lines completed, up to the end marker, and the state left.
pub open spec fn decode_from(pending: Seq<u8>, input: Seq<u8>) -> (Seq<Seq<char>>, DecoderView)
    decreases input.len(),
{
    if input.len() == 0 {
        (seq![], DecoderView { pending, finished: false })
    } else if input[0] == LF {
        if is_sentinel(pending) {
            (seq![], DecoderView { pending: seq![], finished: true })
        } else {
            let rest = decode_from(seq![], input.drop_first());
            (fragment_seq(pending) + rest.0, rest.1)
        }
    } else {
        decode_from(pending.push(input[0]), input.drop_first())
    }
}

/// What feeding one chunk yields, and the state after it. Nothing is read
/// after the end marker.
pub open spec fn feed_spec(s: DecoderView, chunk: Seq<u8>) -> (Seq<Seq<char>>, DecoderView) {
    if s.finished {
        (seq![], s)
    } else {
        decode_from(s.pending, chunk)
    }
}

pub open spec fn string_views(v: Seq<String>) -> Seq<Seq<char>> {
    v.map_values(|s: String| s@)
}

proof fn lemma_decode_split(p: Seq<u8>, a: Seq<u8>, b: Seq<u8>)
    ensures
        decode_from(p, a + b) == ({
            let (f1, s1) = decode_from(p, a);
            let (f2, s2) = feed_spec(s1, b);
            (f1 + f2, s2)
        }),
    decreases a.len(),
{
    if a.len() == 0 {
        assert(a + b =~= b);
        assert(Seq::<Seq<char>>::empty() + decode_from(p, b).0 =~= decode_from(p, b).0);
    } else {
        assert((a + b)[0] == a[0]);
        assert((a + b).drop_first() =~= a.drop_first() + b);
        if a[0] == LF {
            if is_sentinel(p) {
                assert(Seq::<Seq<char>>::empty() + Seq::<Seq<char>>::empty() =~= Seq::<Seq<char>>::empty());
            } else {
                lemma_decode_split(seq![], a.drop_first(), b);
                let (f1, s1) = decode_from(seq![], a.drop_first());
                let (f2, s2) = feed_spec(s1, b);
                assert(fragment_seq(p) + (f1 + f2) =~= (fragment_seq(p) + f1) + f2);
            }
        } else {
            lemma_decode_split(p.push(a[0]), a.drop_first(), b);
        }
    }
}

/// However the body is cut into chunks, the decoder yields the same
/// fragments and ends in the same state: feeding `a` and then `b` is
/// feeding `a + b` at once.
pub proof fn lemma_chunking_is_invisible(s: DecoderView, a: Seq<u8>, b: Seq<u8>)
    ensures
        feed_spec(s, a + b) == ({
            let (f1, s1) = feed_spec(s, a);
            let (f2, s2) = feed_spec(s1, b);
            (f1 + f2, s2)
        }),
{
    if s.finished {
        assert(Seq::<Seq<char>>::empty() + Seq::<Seq<char>>::empty() =~= Seq::<Seq<char>>::empty());
    } else {
        lemma_decode_split(s.pending, a, b);
    }
}

proof fn lemma_line_accumulates(acc: Seq<u8>, x: Seq<u8>, tail: Seq<u8>)
    requires
        forall|i: int| 0 <= i < x.len() ==> x[i] != LF,
    ensures
        decode_from(acc, x + tail) == decode_from(acc + x, tail),
    decreases x.len(),
{
    if x.len() == 0 {
        assert(x + tail =~= tail);
        assert(acc + x =~= acc);
    } else {
        assert((x + tail)[0] == x[0]);
        assert((x + tail).drop_first() =~= x.drop_first() + tail);
        assert(acc.push(x[0]) + x.drop_first() =~= acc + x);
        lemma_line_accumulates(acc.push(x[0]), x.drop_first(), tail);
    }
}

/// A complete line that yields no fragment and is not the end marker (a
/// payload that is no JSON or carries no content, a line of another kind)
/// is passed over: the stream goes on with the lines after it as if it
/// were not there.
pub proof fn lemma_line_without_fragment_is_skipped(line: Seq<u8>, rest: Seq<u8>)
    requires
        forall|i: int| 0 <= i < line.len() ==> line[i] != LF,
        !is_sentinel(line),
        line_fragment(line).is_none(),
    ensures
        decode_from(seq![], line + seq![LF] + rest) == decode_from(seq![], rest),
{
    let tail = seq![LF] + rest;
    assert(line + seq![LF] + rest =~= line + tail);
    lemma_line_accumulates(seq![], line, tail);
    assert(Seq::<u8>::empty() + line =~= line);
    assert(tail[0] == LF);
    assert(tail.drop_first() =~= rest);
    assert(fragment_seq(line) + decode_from(seq![], rest).0 =~= decode_from(seq![], rest).0);
}

/// Incremental decoder of a streamed reply body.
pub struct StreamDecoder {
    pending: Vec<u8>,
    finished: bool,
}

impl View for StreamDecoder {
    type V = DecoderView;

    closed spec fn view(&self) -> DecoderView {
        DecoderView { pending: self.pending@, finished: self.finished }
    }
}

/// The payload of a complete line, copied out; `None` for a line that is
/// no record.
fn line_payload(line: &Vec<u8>) -> (r: Option<Vec<u8>>)
    ensures
        match r {
            Some(p) => payload_of(line@) == Some(p@),
            None => payload_of(line@).is_none(),
        },
{
    let mut n = line.len();
    if n > 0 && line[n - 1] == CR {
        n = n - 1;
    }
    assert(line@.subrange(0, n as int) =~= strip_cr(line@));
    let prefix: Vec<u8> = vec![100u8, 97u8, 116u8, 97u8, 58u8, 32u8];
    assert(prefix@ =~= data_prefix());
    if n < 6 {
        return None;
    }
    let mut i: usize = 0;
    while i < 6
        invariant
            i <= 6 <= n <= line@.len(),
            prefix@ == data_prefix(),
            line@.subrange(0, n as int) == strip_cr(line@),
            forall|j: int| 0 <= j < i ==> line@[j] == prefix@[j],
        decreases 6 - i,
    {
        if line[i] != prefix[i] {
            assert(strip_cr(line@)[i as int] == line@[i as int]);
            assert(strip_cr(line@).subrange(0, 6)[i as int] != data_prefix()[i as int]);
            return None;
        }
        i = i + 1;
    }
    assert(strip_cr(line@).subrange(0, 6) =~= data_prefix());
    let mut p: Vec<u8> = Vec::new();
    let mut k: usize = 6;
    while k < n
        invariant
            6 <= k <= n <= line@.len(),
            p@ == line@.subrange(6, k as int),
            line@.subrange(0, n as int) == strip_cr(line@),
        decreases n - k,
    {
        p.push(line[k]);
        assert(line@.subrange(6, k + 1) =~= line@.subrange(6, k as int).push(line@[k as int]));
        k = k + 1;
    }
    assert(p@ =~= strip_cr(line@).subrange(6, n as int));
    Some(p)
}

fn is_done_marker(p: &Vec<u8>) -> (r: bool)
    ensures
        r == (p@ == done_marker()),
{
    let r = p.len() == 6 && p[0] == 91u8 && p[1] == 68u8 && p[2] == 79u8 && p[3] == 78u8
        && p[4] == 69u8 && p[5] == 93u8;
    proof {
        if r {
            assert(p@ =~= done_marker());
        }
        if p@ == done_marker() {
            assert(p@[0] == 91u8 && p@[5] == 93u8);
        }
    }
    r
}

impl StreamDecoder {
    /// A decoder before any byte of the body.
    pub fn new() -> (r: StreamDecoder)
        ensures
            r@ == (DecoderView { pending: seq![], finished: false }),
    {
        StreamDecoder { pending: Vec::new(), finished: false }
    }

    /// Whether the end marker has been seen.
    pub fn is_finished(&self) -> (r: bool)
        ensures
            r == self@.finished,
    {
        self.finished
    }

    /// Takes the next chunk of the body and returns the fragments of the
    /// lines it completes, in order; a line cut by the chunk's end waits for
    /// the rest.
    pub fn feed(&mut self, chunk: &[u8]) -> (r: Vec<String>)
        ensures
            (string_views(r@), final(self)@) == feed_spec(old(self)@, chunk@),
    {
        let mut out: Vec<String> = Vec::new();
        if self.finished {
            assert(string_views(out@) =~= Seq::<Seq<char>>::empty());
            return out;
        }
        let n = chunk.len();
        let mut i: usize = 0;
        assert(chunk@.subrange(0, n as int) =~= chunk@);
        assert(string_views(out@) + decode_from(self.pending@, chunk@).0
            =~= decode_from(self.pending@, chunk@).0);
        while i < n
            invariant
                n == chunk@.len(),
                i <= n,
                !self.finished,
                !old(self).finished,
                decode_from(old(self).pending@, chunk@) == ({
                    let (f, s) = decode_from(self.pending@, chunk@.subrange(i as int, n as int));
                    (string_views(out@) + f, s)
                }),
            decreases n - i,
        {
            let ghost rest = chunk@.subrange(i as int, n as int);
            assert(rest[0] == chunk@[i as int]);
            assert(rest.drop_first() =~= chunk@.subrange(i + 1, n as int));
            let b = chunk[i];
            if b == LF {
                let payload = line_payload(&self.pending);
                match payload {
                    Some(p) => {
                        if is_done_marker(&p) {
                            self.pending = Vec::new();
                            self.finished = true;
                            assert(string_views(out@) + Seq::<Seq<char>>::empty()
                                =~= string_views(out@));
                            return out;
                        }
                        let frag = string_at(&p, "/choices/0/delta/content");
                        let ghost before = string_views(out@);
                        match frag {
                            Some(c) => {
                                out.push(c);
                                assert(string_views(out@) =~= before + fragment_seq(self.pending@));
                            },
                            None => {
                                assert(fragment_seq(self.pending@) =~= Seq::<Seq<char>>::empty());
                                assert(before =~= before + fragment_seq(self.pending@));
                            },
                        }
                        let ghost line = self.pending@;
                        let ghost tail = decode_from(seq![], chunk@.subrange(i + 1, n as int));
                        assert(before + (fragment_seq(line) + tail.0) =~= (before
                            + fragment_seq(line)) + tail.0);
                    },
                    None => {
                        let ghost tail = decode_from(seq![], chunk@.subrange(i + 1, n as int));
                        assert(fragment_seq(self.pending@) + tail.0 =~= tail.0);
                    },
                }
                self.pending = Vec::new();
            } else {
                self.pending.push(b);
            }
            i = i + 1;
        }
        assert(string_views(out@) + Seq::<Seq<char>>::empty() =~= string_views(out@));
        out
    }

    /// Called when the body has ended: a last line that no newline closed
    /// is decoded as if one did.
    pub fn finish(&mut self) -> (r: Vec<String>)
        ensures
            (string_views(r@), final(self)@) == feed_spec(old(self)@, seq![LF]),
    {
        let nl: [u8; 1] = [LF];
        let r = self.feed(&nl);
        assert(nl@ =~= seq![LF]);
        r
    }
}

} // verus!
