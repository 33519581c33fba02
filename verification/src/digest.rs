//! SHA-256 over data that arrives in pieces.

use vstd::pervasive::unreached;
use vstd::prelude::*;
use crate::bytes::views_of;
use crate::error::Error;
use crate::hex::{hex_upper, hex_upper_encode};
use crate::primitives::{
    absorbed, context_finish, context_new, context_update, sha256_bytes, MAX_HASH_INPUT,
    SHA256_OUTPUT_LEN,
};

verus! {

/// A finished SHA-256 digest: 32 bytes. Only finishing a computation makes
/// one.
#[derive(Clone, Copy, Debug, PartialEq, Eq)]
pub struct Digest {
    bytes: [u8; 32],
}

impl View for Digest {
    type V = Seq<u8>;

    closed spec fn view(&self) -> Seq<u8> {
        self.bytes@
    }
}

impl Digest {
    /// The digest's bytes.
    pub fn as_bytes(&self) -> (bytes: &[u8])
        ensures
            bytes@ == self@,
            bytes@.len() == SHA256_OUTPUT_LEN,
    {
        self.bytes.as_slice()
    }

    /// The digest in upper-case hexadecimal: 64 characters.
    pub fn to_hex(&self) -> (text: String)
        ensures
            text@ == hex_upper(self@),
            text@.len() == 2 * SHA256_OUTPUT_LEN,
    {
        hex_upper_encode(self.bytes.as_slice())
    }
}

/// A SHA-256 computation in progress.
pub struct DigestContext {
    inner: ring::digest::Context,
    count: u64,
}

impl View for DigestContext {
    type V = Seq<u8>;

    /// The bytes taken in so far.
    closed spec fn view(&self) -> Seq<u8> {
        absorbed(self.inner)
    }
}

impl DigestContext {
    /// The count kept beside the context is the number of bytes taken in,
    /// and the primitive can still finish on them.
    pub closed spec fn wf(&self) -> bool {
        &&& self.count == absorbed(self.inner).len()
        &&& self.count <= MAX_HASH_INPUT
    }

    /// A context that has taken in nothing.
    pub fn new() -> (cx: DigestContext)
        ensures
            cx.wf(),
            cx@ == Seq::<u8>::empty(),
    {
        DigestContext { inner: context_new(), count: 0 }
    }

    /// The number of bytes taken in so far.
    pub fn len(&self) -> (n: u64)
        requires
            self.wf(),
        ensures
            n == self@.len(),
            n <= MAX_HASH_INPUT,
    {
        self.count
    }

    /// Takes in `data` after what the context already holds.
    pub fn update(&mut self, data: &[u8])
        requires
            old(self).wf(),
            old(self)@.len() + data@.len() <= MAX_HASH_INPUT,
        ensures
            final(self).wf(),
            final(self)@ == old(self)@ + data@,
    {
        context_update(&mut self.inner, data);
        self.count = self.count + data.len() as u64;
    }

    /// Ends the computation: the digest of everything taken in.
    pub fn finish(self) -> (d: Digest)
        requires
            self.wf(),
        ensures
            d@ == sha256_bytes(self@),
    {
        Digest { bytes: context_finish(self.inner) }
    }
}

/// The digest of a stream that arrives in the given chunks: the digest of
/// the chunks laid end to end.
pub open spec fn stream_digest(chunks: Seq<Seq<u8>>) -> Seq<u8> {
    sha256_bytes(chunks.flatten())
}

/// The chunks up to `n` hold no more than all of them.
proof fn lemma_prefix_is_shorter(chunks: Seq<Seq<u8>>, n: int)
    requires
        0 <= n <= chunks.len(),
    ensures
        chunks.take(n).flatten().len() <= chunks.flatten().len(),
    decreases chunks.len() - n,
{
    if n < chunks.len() {
        lemma_prefix_is_shorter(chunks, n + 1);
        assert(chunks.take(n + 1) == chunks.take(n).push(chunks[n]));
        chunks.take(n).lemma_flatten_push(chunks[n]);
    } else {
        assert(chunks.take(n) == chunks);
    }
}

/// The SHA-256 digest of a stream, fed to one context chunk by chunk, where
/// the stream is no longer than the hash takes; `None` where it is longer.
///
/// The digest depends on the bytes alone, not on where the chunks end; an
/// empty chunk adds nothing.
pub fn checked_sha256(chunks: &[Vec<u8>]) -> (r: Option<Digest>)
    ensures
        r is Some <==> views_of(chunks@).flatten().len() <= MAX_HASH_INPUT,
        r matches Some(d) ==> d@ == stream_digest(views_of(chunks@)),
{
    let ghost views = views_of(chunks@);
    let mut cx = DigestContext::new();
    let mut i: usize = 0;
    while i < chunks.len()
        invariant
            i <= chunks.len(),
            views == views_of(chunks@),
            cx.wf(),
            cx@ == views.take(i as int).flatten(),
        decreases chunks.len() - i,
    {
        proof {
            lemma_prefix_is_shorter(views, i + 1);
            assert(views.take(i + 1) == views.take(i as int).push(views[i as int]));
            views.take(i as int).lemma_flatten_push(views[i as int]);
        }
        if chunks[i].len() as u64 > MAX_HASH_INPUT - cx.len() {
            return None;
        }
        cx.update(chunks[i].as_slice());
        i = i + 1;
    }
    assert(views.take(i as int) == views);
    Some(cx.finish())
}

/// The SHA-256 digest of a stream, fed to one context chunk by chunk.
///
/// The digest depends on the bytes alone, not on where the chunks end; an
/// empty chunk adds nothing.
pub fn sha256(chunks: &[Vec<u8>]) -> (d: Digest)
    requires
        views_of(chunks@).flatten().len() <= MAX_HASH_INPUT,
    ensures
        d@ == stream_digest(views_of(chunks@)),
{
    match checked_sha256(chunks) {
        Some(d) => d,
        None => unreached(),
    }
}

/// Where a stream's digest stands after one read.
pub enum Progress {
    /// The read brought bytes; the computation goes on with them taken in.
    More(DigestContext),
    /// The read brought nothing: the stream has ended, and this is its
    /// digest.
    Done(Digest),
}

/// Applies the outcome of one read of a stream to the computation.
///
/// `None` stands for a read that failed: the computation is given up with
/// `IoError`, and no digest of the part read so far comes back. An empty
/// chunk is the end of the stream; any other chunk is taken in.
pub fn absorb_read(cx: DigestContext, read: Option<&[u8]>) -> (r: Result<Progress, Error>)
    requires
        cx.wf(),
        read matches Some(chunk) ==> cx@.len() + chunk@.len() <= MAX_HASH_INPUT,
    ensures
        r is Err <==> read is None,
        r matches Err(e) ==> e == Error::IoError,
        r matches Ok(Progress::Done(d)) ==> read matches Some(chunk) && chunk@.len() == 0 && d@
            == sha256_bytes(cx@),
        r matches Ok(Progress::More(next)) ==> read matches Some(chunk) && chunk@.len() > 0
            && next.wf() && next@ == cx@ + chunk@,
{
    match read {
        None => Err(Error::IoError),
        Some(chunk) => {
            if chunk.len() == 0 {
                Ok(Progress::Done(cx.finish()))
            } else {
                let mut cx = cx;
                cx.update(chunk);
                Ok(Progress::More(cx))
            }
        },
    }
}

/// Two runs over the same chunks give the same digest.
pub proof fn law_digest_is_deterministic(first: Seq<Seq<u8>>, second: Seq<Seq<u8>>)
    requires
        first == second,
    ensures
        stream_digest(first) == stream_digest(second),
{
}

/// Streams that hold the same bytes have the same digest, wherever their
/// chunks end.
pub proof fn law_chunking_does_not_matter(first: Seq<Seq<u8>>, second: Seq<Seq<u8>>)
    requires
        first.flatten() == second.flatten(),
    ensures
        stream_digest(first) == stream_digest(second),
{
}

/// Data cut in two at any place has the digest of the data in one piece.
pub proof fn law_split_anywhere(data: Seq<u8>, at: int)
    requires
        0 <= at <= data.len(),
    ensures
        stream_digest(seq![data.take(at), data.skip(at)]) == stream_digest(seq![data]),
{
    let none = Seq::<Seq<u8>>::empty();
    let halves = seq![data.take(at), data.skip(at)];
    assert(halves == none.push(data.take(at)).push(data.skip(at)));
    none.lemma_flatten_push(data.take(at));
    none.push(data.take(at)).lemma_flatten_push(data.skip(at));
    none.lemma_flatten_push(data);
    assert(data.take(at) + data.skip(at) == data);
}

} // verus!
