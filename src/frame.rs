//! Incremental reader of backend frames.
//!
//! A frame is a two-byte length header followed by that many payload bytes.
//! The stream may hand the bytes over in pieces of any size; the reader keeps
//! what it has of the current frame and hands out a frame only once it is
//! whole, header included, so that it can be forwarded verbatim.
use vstd::prelude::*;
use crate::length::{decode_length, header_ok, header_value};

verus! {

/// What one step of the reader yields, as a mathematical value.
pub enum FeedView {
    NeedMore,
    Frame(Seq<u8>),
    EndOfStream,
    Malformed,
}

/// What one step of the reader yields.
#[derive(Debug, PartialEq, Eq)]
pub enum ReadOutcome {
    /// The current frame is not complete yet.
    NeedMore,
    /// A whole frame: its two header bytes followed by its payload.
    Frame(Vec<u8>),
    /// The peer closed the stream (a read of zero bytes).
    EndOfStream,
    /// The header holds the reserved byte `0x00` or states a length outside
    /// `0..=MAX_FRAME_LEN`.
    Malformed,
}

impl View for ReadOutcome {
    type V = FeedView;

    open spec fn view(&self) -> FeedView {
        match self {
            ReadOutcome::NeedMore => FeedView::NeedMore,
            ReadOutcome::Frame(f) => FeedView::Frame(f@),
            ReadOutcome::EndOfStream => FeedView::EndOfStream,
            ReadOutcome::Malformed => FeedView::Malformed,
        }
    }
}

/// The payload length stated by the header at the front of `s`.
pub open spec fn stated_len(s: Seq<u8>) -> int
    recommends
        s.len() >= 2,
{
    header_value(s[0], s[1])
}

/// The header at the front of `s` states a length.
pub open spec fn stated_ok(s: Seq<u8>) -> bool
    recommends
        s.len() >= 2,
{
    header_ok(s[0], s[1])
}

/// `s` is a whole, well-formed frame.
pub open spec fn is_frame(s: Seq<u8>) -> bool {
    s.len() >= 2 && stated_ok(s) && s.len() == 2 + stated_len(s)
}

/// The bytes held of a frame in progress: less than a header, or a valid
/// header and part of its payload.
pub open spec fn partial_ok(p: Seq<u8>) -> bool {
    p.len() < 2 || (stated_ok(p) && p.len() < 2 + stated_len(p))
}

/// How many more bytes the frame in progress needs before the next decision:
/// the rest of the header, or the rest of the payload.
pub open spec fn wanted_of(p: Seq<u8>) -> int {
    if p.len() < 2 {
        2 - p.len()
    } else {
        2 + stated_len(p) - p.len()
    }
}

/// One step of the reader: the bytes held `p` and the bytes of one read
/// `chunk` give the bytes held afterwards and what the step yields.
pub open spec fn feed_spec(p: Seq<u8>, chunk: Seq<u8>) -> (Seq<u8>, FeedView) {
    if chunk.len() == 0 {
        (Seq::empty(), FeedView::EndOfStream)
    } else {
        let s = p + chunk;
        if s.len() < 2 {
            (s, FeedView::NeedMore)
        } else if !stated_ok(s) {
            (Seq::empty(), FeedView::Malformed)
        } else if s.len() == 2 + stated_len(s) {
            (Seq::empty(), FeedView::Frame(s))
        } else {
            (s, FeedView::NeedMore)
        }
    }
}

/// Runs the reader from the bytes held `p` over the reads `chunks`, giving the
/// bytes held afterwards and what each step yielded.
pub open spec fn feed_all(p: Seq<u8>, chunks: Seq<Seq<u8>>) -> (Seq<u8>, Seq<FeedView>)
    decreases chunks.len(),
{
    if chunks.len() == 0 {
        (p, Seq::empty())
    } else {
        let (p1, y) = feed_spec(p, chunks[0]);
        let (pn, ys) = feed_all(p1, chunks.drop_first());
        (pn, seq![y] + ys)
    }
}

/// `k - 1` steps that need more, then the whole frame `f`.
pub open spec fn one_frame_after(k: nat, f: Seq<u8>) -> Seq<FeedView>
    recommends
        k > 0,
{
    Seq::new((k - 1) as nat, |i: int| FeedView::NeedMore).push(FeedView::Frame(f))
}

/// However the bytes of a frame are split into non-empty reads, the reader,
/// started at a frame boundary, needs more after every read but the last and
/// yields exactly that frame after the last one, ending at a frame boundary.
pub proof fn lemma_frame_from_any_reads(f: Seq<u8>, chunks: Seq<Seq<u8>>)
    requires
        is_frame(f),
        chunks.flatten() == f,
        forall|i: int| 0 <= i < chunks.len() ==> (#[trigger] chunks[i]).len() > 0,
    ensures
        chunks.len() > 0,
        feed_all(Seq::empty(), chunks) == (Seq::<u8>::empty(), one_frame_after(chunks.len(), f)),
{
    if chunks.len() == 0 {
        assert(chunks.flatten().len() == 0);
    }
    assert(Seq::<u8>::empty() + f == f);
    lemma_frame_rest(f, Seq::empty(), chunks);
}

proof fn lemma_frame_rest(f: Seq<u8>, p: Seq<u8>, chunks: Seq<Seq<u8>>)
    requires
        is_frame(f),
        chunks.len() > 0,
        p + chunks.flatten() == f,
        forall|i: int| 0 <= i < chunks.len() ==> (#[trigger] chunks[i]).len() > 0,
    ensures
        feed_all(p, chunks) == (Seq::<u8>::empty(), one_frame_after(chunks.len(), f)),
    decreases chunks.len(),
{
    let c = chunks[0];
    let rest = chunks.drop_first();
    let s = p + c;
    assert(chunks.flatten() == c + rest.flatten());
    assert(c.len() > 0);
    assert(f == s + rest.flatten()) by {
        assert(f =~= s + rest.flatten());
    }
    if s.len() >= 2 {
        assert(s[0] == f[0] && s[1] == f[1]);
    }
    if rest.len() == 0 {
        assert(rest.flatten() == Seq::<u8>::empty());
        assert(s =~= f);
        assert(feed_spec(p, c) == (Seq::<u8>::empty(), FeedView::Frame(f)));
        assert(feed_all(Seq::<u8>::empty(), rest) == (Seq::<u8>::empty(), Seq::<FeedView>::empty()));
        assert(seq![FeedView::Frame(f)] + Seq::<FeedView>::empty() =~= seq![FeedView::Frame(f)]);
        assert(feed_all(p, chunks) == (Seq::<u8>::empty(), seq![FeedView::Frame(f)]));
        assert(seq![FeedView::Frame(f)] =~= one_frame_after(chunks.len(), f));
    } else {
        assert(rest[0] == chunks[1]);
        assert(rest.flatten() == rest[0] + rest.drop_first().flatten());
        assert(rest.flatten().len() > 0);
        assert(s.len() < f.len());
        assert(feed_spec(p, c) == (s, FeedView::NeedMore));
        assert forall|i: int| 0 <= i < rest.len() implies (#[trigger] rest[i]).len() > 0 by {
            assert(rest[i] == chunks[i + 1]);
        }
        lemma_frame_rest(f, s, rest);
        assert(seq![FeedView::NeedMore] + one_frame_after(rest.len(), f)
            =~= one_frame_after(chunks.len(), f));
    }
}

/// Reassembles backend frames from reads of any size.
pub struct FrameReader {
    partial: Vec<u8>,
    expected: usize,
}

impl View for FrameReader {
    type V = Seq<u8>;

    /// The bytes held of the frame in progress.
    closed spec fn view(&self) -> Seq<u8> {
        self.partial@
    }
}

impl FrameReader {
    pub closed spec fn wf(&self) -> bool {
        &&& partial_ok(self.partial@)
        &&& self.partial@.len() >= 2 ==> self.expected == stated_len(self.partial@)
    }

    /// A reader at a frame boundary.
    pub fn new() -> (r: FrameReader)
        ensures
            r.wf(),
            r@ == Seq::<u8>::empty(),
    {
        FrameReader { partial: Vec::new(), expected: 0 }
    }

    /// How many bytes the next read may deliver: the rest of the header, or
    /// the rest of the payload.
    pub fn wanted(&self) -> (r: usize)
        requires
            self.wf(),
        ensures
            r == wanted_of(self@),
    {
        if self.partial.len() < 2 {
            2 - self.partial.len()
        } else {
            2 + self.expected - self.partial.len()
        }
    }

    /// Takes the bytes of one read; an empty `chunk` means the peer closed.
    pub fn feed(&mut self, chunk: &[u8]) -> (r: ReadOutcome)
        requires
            old(self).wf(),
            chunk@.len() <= wanted_of(old(self)@),
        ensures
            final(self).wf(),
            (final(self)@, r@) == feed_spec(old(self)@, chunk@),
    {
        if chunk.len() == 0 {
            self.partial = Vec::new();
            return ReadOutcome::EndOfStream;
        }
        let had: usize = self.partial.len();
        let mut i: usize = 0;
        while i < chunk.len()
            invariant
                i <= chunk@.len(),
                had == old(self).partial@.len(),
                self.expected == old(self).expected,
                self.partial@ == old(self).partial@ + chunk@.subrange(0, i as int),
            decreases chunk@.len() - i,
        {
            self.partial.push(chunk[i]);
            i = i + 1;
        }
        assert(chunk@.subrange(0, chunk@.len() as int) == chunk@);
        if self.partial.len() < 2 {
            return ReadOutcome::NeedMore;
        }
        if had < 2 {
            match decode_length(self.partial[0], self.partial[1]) {
                None => {
                    self.partial = Vec::new();
                    return ReadOutcome::Malformed;
                },
                Some(n) => {
                    self.expected = n;
                },
            }
        }
        if self.partial.len() == 2 + self.expected {
            let mut f: Vec<u8> = Vec::new();
            f.append(&mut self.partial);
            assert(f@ == old(self)@ + chunk@);
            ReadOutcome::Frame(f)
        } else {
            ReadOutcome::NeedMore
        }
    }
}

} // verus!
