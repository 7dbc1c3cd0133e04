//! The decisions of one chat request: whether the service answered, and
//! the reply assembled from the streamed body.

use vstd::prelude::*;
use vstd::string::*;
use crate::decoder::{StreamDecoder, DecoderView, feed_spec, string_views};

verus! {

/// Why a request produced no reply.
#[derive(Clone, Copy, Debug, PartialEq, Eq, Structural)]
pub enum TransportError {
    /// The connection failed or broke while the body was read.
    Network,
    /// The service answered with a status other than success.
    Server(u16),
}

/// Whether an HTTP status is a success (2xx).
pub open spec fn is_success(status: u16) -> bool {
    200 <= status <= 299
}

/// Accepts a success status; any other becomes a `Server` error.
pub fn check_status(status: u16) -> (r: Result<(), TransportError>)
    ensures
        r is Ok <==> is_success(status),
        r is Err ==> r == Err::<(), TransportError>(TransportError::Server(status)),
{
    if 200 <= status && status <= 299 {
        Ok(())
    } else {
        Err(TransportError::Server(status))
    }
}

/// The fragments joined in order.
pub open spec fn concat_all(fs: Seq<Seq<char>>) -> Seq<char>
    decreases fs.len(),
{
    if fs.len() == 0 {
        Seq::empty()
    } else {
        concat_all(fs.drop_last()) + fs.last()
    }
}

/// Decoding whole chunks one after the other from state `s`: the text
/// yielded and the state left.
pub open spec fn run_chunks(s: DecoderView, chunks: Seq<Seq<u8>>) -> (Seq<char>, DecoderView)
    decreases chunks.len(),
{
    if chunks.len() == 0 {
        (Seq::empty(), s)
    } else {
        let (t, s1) = run_chunks(s, chunks.drop_last());
        let (f, s2) = feed_spec(s1, chunks.last());
        (t + concat_all(f), s2)
    }
}

/// The reply that a whole body yields: every fragment up to the end
/// marker, and, where the body ends without one, those of its last
/// unterminated line too.
pub open spec fn reply_of(chunks: Seq<Seq<u8>>) -> Seq<char> {
    let (t, s) = run_chunks(DecoderView { pending: seq![], finished: false }, chunks);
    t + concat_all(feed_spec(s, seq![crate::decoder::LF]).0)
}

/// The reply of one request, built while its body streams in.
pub struct ReplyAssembler {
    decoder: StreamDecoder,
    text: String,
}

impl ReplyAssembler {
    pub closed spec fn decoder_view(&self) -> DecoderView {
        self.decoder@
    }

    pub closed spec fn text_view(&self) -> Seq<char> {
        self.text@
    }

    /// An assembler before the first byte of the body.
    pub fn new() -> (r: ReplyAssembler)
        ensures
            r.decoder_view() == (DecoderView { pending: seq![], finished: false }),
            r.text_view() == Seq::<char>::empty(),
    {
        ReplyAssembler { decoder: StreamDecoder::new(), text: String::new() }
    }

    /// Whether the end marker has been seen.
    pub fn is_finished(&self) -> (r: bool)
        ensures
            r == self.decoder_view().finished,
    {
        self.decoder.is_finished()
    }

    fn take(&mut self, fragments: &Vec<String>)
        ensures
            final(self).decoder_view() == old(self).decoder_view(),
            final(self).text_view() == old(self).text_view() + concat_all(string_views(fragments@)),
    {
        let mut i: usize = 0;
        while i < fragments.len()
            invariant
                i <= fragments@.len(),
                self.decoder_view() == old(self).decoder_view(),
                self.text_view() == old(self).text_view() + concat_all(
                    string_views(fragments@.subrange(0, i as int)),
                ),
            decreases fragments@.len() - i,
        {
            self.text.append(fragments[i].as_str());
            let ghost prev = string_views(fragments@.subrange(0, i as int));
            let ghost next = string_views(fragments@.subrange(0, i + 1));
            assert(next.drop_last() =~= prev);
            assert(self.text_view() =~= old(self).text_view() + concat_all(next));
            i = i + 1;
        }
        assert(fragments@.subrange(0, fragments@.len() as int) =~= fragments@);
    }

    /// Takes the next chunk of the body and returns the fragments it
    /// completes, for display; the reply grows by exactly those.
    pub fn feed(&mut self, chunk: &[u8]) -> (r: Vec<String>)
        ensures
            (string_views(r@), final(self).decoder_view()) == feed_spec(
                old(self).decoder_view(),
                chunk@,
            ),
            final(self).text_view() == old(self).text_view() + concat_all(string_views(r@)),
    {
        let r = self.decoder.feed(chunk);
        self.take(&r);
        r
    }

    /// Called when the body has ended: decodes a last unterminated line.
    pub fn finish(&mut self) -> (r: Vec<String>)
        ensures
            (string_views(r@), final(self).decoder_view()) == feed_spec(
                old(self).decoder_view(),
                seq![crate::decoder::LF],
            ),
            final(self).text_view() == old(self).text_view() + concat_all(string_views(r@)),
    {
        let r = self.decoder.finish();
        self.take(&r);
        r
    }

    /// The reply assembled so far.
    pub fn into_reply(self) -> (r: String)
        ensures
            r@ == self.text_view(),
    {
        self.text
    }
}

/// The reply of a body delivered as `chunks`, decoded as it would be
/// while streaming.
pub fn decode_body(chunks: &Vec<Vec<u8>>) -> (r: String)
    ensures
        r@ == reply_of(chunks@.map_values(|c: Vec<u8>| c@)),
{
    let ghost views = chunks@.map_values(|c: Vec<u8>| c@);
    let ghost start = DecoderView { pending: seq![], finished: false };
    let mut a = ReplyAssembler::new();
    let mut i: usize = 0;
    while i < chunks.len()
        invariant
            i <= chunks@.len(),
            views == chunks@.map_values(|c: Vec<u8>| c@),
            (a.text_view(), a.decoder_view()) == run_chunks(start, views.subrange(0, i as int)),
        decreases chunks@.len() - i,
    {
        let _shown = a.feed(chunks[i].as_slice());
        assert(views.subrange(0, i + 1).drop_last() =~= views.subrange(0, i as int));
        i = i + 1;
    }
    assert(views.subrange(0, chunks@.len() as int) =~= views);
    let _shown = a.finish();
    a.into_reply()
}

} // verus!
