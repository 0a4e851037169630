//! The raw body of an HTTP request or response: a lazy, pull-based,
//! single-consumer sequence of chunk-or-error results.
//!
//! A body is modelled by the sequence of items it will yield, each item a
//! successful chunk (viewed as its byte sequence) or an I/O error. Once a
//! body yields an error or the end of the sequence it is fully consumed:
//! every later pull yields nothing. The view of a `Body` is therefore
//! already `fuse`d: an error can only be its last element.

use vstd::prelude::*;
use bytes::Bytes;
use crate::chunk::chunk_contents;
use crate::chunk::chunk_from_string;
use crate::chunk::chunk_from_vec;
use crate::chunk::chunk_into_vec;

verus! {

/// How one item of the underlying stream reads in specifications: a
/// successful chunk is its byte sequence, an error is carried unchanged.
pub open spec fn item_view(item: Result<Bytes, std::io::Error>) -> Result<Seq<u8>, std::io::Error> {
    match item {
        Ok(chunk) => Ok(chunk_contents(chunk)),
        Err(e) => Err(e),
    }
}

/// The item views of a whole stream.
pub open spec fn item_views(items: Seq<Result<Bytes, std::io::Error>>) -> Seq<
    Result<Seq<u8>, std::io::Error>,
> {
    items.map_values(|item: Result<Bytes, std::io::Error>| item_view(item))
}

/// What a well-behaved body yields of an underlying sequence: everything up
/// to and including the first error; nothing after it.
pub open spec fn fuse(items: Seq<Result<Seq<u8>, std::io::Error>>) -> Seq<
    Result<Seq<u8>, std::io::Error>,
>
    decreases items.len(),
{
    if items.len() == 0 {
        Seq::empty()
    } else if items[0] is Err {
        seq![items[0]]
    } else {
        seq![items[0]] + fuse(items.drop_first())
    }
}

/// The outcome of draining a sequence of items in full: the concatenation
/// of every chunk's bytes in arrival order, or the first error, at which
/// consumption stops and all bytes already pulled are discarded.
pub open spec fn drained(items: Seq<Result<Seq<u8>, std::io::Error>>) -> Result<
    Seq<u8>,
    std::io::Error,
>
    decreases items.len(),
{
    if items.len() == 0 {
        Ok(Seq::empty())
    } else {
        match items[0] {
            Err(e) => Err(e),
            Ok(chunk) => match drained(items.drop_first()) {
                Err(e) => Err(e),
                Ok(tail) => Ok(chunk + tail),
            },
        }
    }
}

/// The raw body of an HTTP request or response.
///
/// A body is a stream of `Bytes` values, which are shared handles to byte
/// buffers. It yields the items of its view in order and nothing after
/// them: pulling an exhausted or failed body yields no further items.
pub struct Body {
    // The items still to be yielded, in reverse order: the next one last.
    rest: Vec<Result<Bytes, std::io::Error>>,
}

impl View for Body {
    type V = Seq<Result<Seq<u8>, std::io::Error>>;

    closed spec fn view(&self) -> Self::V {
        fuse(item_views(self.rest@.reverse()))
    }
}

impl Body {
    /// Create an empty body: it signals completion with zero chunks.
    pub fn empty() -> (body: Self)
        ensures
            body@ == Seq::<Result<Seq<u8>, std::io::Error>>::empty(),
    {
        let body = Body::from_stream(Vec::new());
        proof {
            assert(Seq::<Result<Bytes, std::io::Error>>::empty().reverse() =~= Seq::empty());
            assert(item_views(Seq::empty()) =~= Seq::empty());
        }
        body
    }

    /// Create a body from a stream of chunk-or-error items, given as the
    /// sequence of items the stream will yield. The body yields them in
    /// order, up to and including the first error.
    pub fn from_stream(items: Vec<Result<Bytes, std::io::Error>>) -> (body: Self)
        ensures
            body@ == fuse(item_views(items@)),
    {
        let ghost all = items@;
        let rest = reversed(items);
        proof {
            assert(rest@.reverse() =~= all);
        }
        Body { rest }
    }

    /// Create a body from an owned byte vector: one successful chunk
    /// holding exactly the vector's bytes, then completion.
    pub fn from_vec(buf: Vec<u8>) -> (body: Self)
        ensures
            body@ == seq![Ok::<Seq<u8>, std::io::Error>(buf@)],
    {
        let chunk = chunk_from_vec(buf);
        Body::from_chunk(chunk)
    }

    /// Create a body from an owned string: one successful chunk holding the
    /// string's UTF-8 bytes, then completion.
    pub fn from_string(text: String) -> (body: Self)
        ensures
            body@ == seq![Ok::<Seq<u8>, std::io::Error>(vstd::utf8::encode_utf8(text@))],
    {
        let chunk = chunk_from_string(text);
        Body::from_chunk(chunk)
    }

    /// Create a body from one chunk: the body yields exactly that chunk,
    /// then completion.
    pub fn from_chunk(chunk: Bytes) -> (body: Self)
        ensures
            body@ == seq![Ok::<Seq<u8>, std::io::Error>(chunk_contents(chunk))],
    {
        let ghost c = chunk;
        let mut items: Vec<Result<Bytes, std::io::Error>> = Vec::new();
        items.push(Ok(chunk));
        let ghost s = item_views(items@);
        let body = Body::from_stream(items);
        proof {
            assert(s =~= seq![Ok::<Seq<u8>, std::io::Error>(chunk_contents(c))]);
            assert(s.drop_first() =~= Seq::empty());
            assert(fuse(s.drop_first()) =~= Seq::empty());
            assert(fuse(s) =~= seq![Ok::<Seq<u8>, std::io::Error>(chunk_contents(c))]);
        }
        body
    }

    /// Pull the next item of the body: the next chunk, the error that ends
    /// the stream, or nothing once the body is fully consumed. After an
    /// error or the end of the stream, every later pull yields `None`.
    pub fn poll_next(&mut self) -> (item: Option<Result<Bytes, std::io::Error>>)
        ensures
            old(self)@.len() == 0 ==> item is None && final(self)@ == old(self)@,
            old(self)@.len() > 0 ==> (item matches Some(it) && item_view(it) == old(self)@[0]
                && final(self)@ == old(self)@.drop_first()),
    {
        proof {
            lemma_fuse_first(item_views(self.rest@.reverse()));
        }
        let next = self.rest.pop();
        match next {
            None => {
                proof {
                    assert(old(self).rest@.reverse() =~= Seq::empty());
                }
                None
            },
            Some(it) => {
                proof {
                    let pending = item_views(old(self).rest@.reverse());
                    assert(old(self).rest@.reverse()[0] == it);
                    assert(pending[0] == item_view(it));
                    assert(self.rest@.reverse() =~= old(self).rest@.reverse().drop_first());
                    assert(item_views(self.rest@.reverse()) =~= pending.drop_first());
                    if pending[0] is Ok {
                        assert((seq![pending[0]] + fuse(pending.drop_first())).drop_first()
                            =~= fuse(pending.drop_first()));
                    }
                }
                match it {
                    Ok(chunk) => Some(Ok(chunk)),
                    Err(e) => {
                        self.rest = Vec::new();
                        proof {
                            assert(self.rest@.reverse() =~= Seq::empty());
                            assert(item_views(self.rest@.reverse()) =~= Seq::empty());
                            assert(old(self)@.drop_first() =~= Seq::empty());
                        }
                        Some(Err(e))
                    },
                }
            },
        }
    }

    /// Drain the whole body, concatenating every successful chunk's bytes
    /// in arrival order into one vector. Fails with the stream's error as
    /// soon as one is yielded: the bytes already pulled are discarded.
    pub fn into_vec(self) -> (r: Result<Vec<u8>, std::io::Error>)
        ensures
            drained(self@) matches Ok(bytes) ==> (r matches Ok(buf) && buf@ == bytes),
            drained(self@) matches Err(e) ==> r == Err::<Vec<u8>, std::io::Error>(e),
    {
        let mut body = self;
        let mut acc: Vec<u8> = Vec::new();
        let failure = drain_all(&mut body, &mut acc);
        match failure {
            None => Ok(acc),
            Some(e) => Err(e),
        }
    }
}

/// Pull every remaining item of `body`, appending each successful chunk's
/// bytes to `acc`; stop at the first error and return it.
fn drain_all(body: &mut Body, acc: &mut Vec<u8>) -> (failure: Option<std::io::Error>)
    ensures
        match failure {
            None => drained(old(body)@) matches Ok(bytes) && final(acc)@ == old(acc)@ + bytes,
            Some(e) => drained(old(body)@) == Err::<Seq<u8>, std::io::Error>(e),
        },
    decreases old(body)@.len(),
{
    let next = body.poll_next();
    match next {
        None => {
            proof {
                assert(old(acc)@ + Seq::<u8>::empty() =~= old(acc)@);
            }
            None
        },
        Some(it) => match it {
            Ok(chunk) => {
                let mut buf = chunk_into_vec(chunk);
                acc.append(&mut buf);
                let failure = drain_all(body, acc);
                proof {
                    if failure is None {
                        let tail = drained(old(body)@.drop_first());
                        assert(tail is Ok);
                        assert(acc@ =~= old(acc)@ + (chunk_contents(chunk) + tail->Ok_0));
                    }
                }
                failure
            },
            Err(e) => Some(e),
        },
    }
}

/// The sequence of items of a stream that yields the given chunks and
/// never errs.
pub open spec fn all_chunks(chunks: Seq<Seq<u8>>) -> Seq<Result<Seq<u8>, std::io::Error>> {
    chunks.map_values(|chunk: Seq<u8>| Ok::<Seq<u8>, std::io::Error>(chunk))
}

/// Round trip: a body built from one buffer drains to exactly that
/// buffer's bytes, unchanged and without error.
pub proof fn lemma_buffer_round_trip(buf: Seq<u8>)
    ensures
        drained(seq![Ok::<Seq<u8>, std::io::Error>(buf)]) == Ok::<Seq<u8>, std::io::Error>(buf),
{
    let items = seq![Ok::<Seq<u8>, std::io::Error>(buf)];
    assert(items.drop_first() =~= Seq::empty());
    assert(drained(items.drop_first()) == Ok::<Seq<u8>, std::io::Error>(Seq::empty()));
    assert(buf + Seq::<u8>::empty() =~= buf);
}

/// An empty body drains to a zero-length result with no error.
pub proof fn lemma_empty_drains_empty()
    ensures
        drained(Seq::<Result<Seq<u8>, std::io::Error>>::empty()) == Ok::<
            Seq<u8>,
            std::io::Error,
        >(Seq::empty()),
{
}

/// A stream of chunks with no error is yielded whole, and draining it
/// gives the concatenation of the chunks in their exact order.
pub proof fn lemma_drain_concatenates(chunks: Seq<Seq<u8>>)
    ensures
        fuse(all_chunks(chunks)) == all_chunks(chunks),
        drained(all_chunks(chunks)) == Ok::<Seq<u8>, std::io::Error>(chunks.flatten()),
    decreases chunks.len(),
{
    let items = all_chunks(chunks);
    if chunks.len() == 0 {
        assert(items =~= Seq::empty());
        assert(chunks.flatten() =~= Seq::empty());
    } else {
        lemma_drain_concatenates(chunks.drop_first());
        assert(items.drop_first() =~= all_chunks(chunks.drop_first()));
        assert(fuse(items) =~= seq![items[0]] + fuse(items.drop_first()));
        assert(fuse(items) =~= items);
        assert(chunks[0] + chunks.drop_first().flatten() == chunks.flatten());
    }
}

/// If the underlying stream errs at position `k`, with only successful
/// chunks before it, draining fails with exactly that error: the bytes of
/// the chunks before it are not returned as a success.
pub proof fn lemma_error_stops_drain(items: Seq<Result<Seq<u8>, std::io::Error>>, k: int)
    requires
        0 <= k < items.len(),
        items[k] is Err,
        forall|i: int| 0 <= i < k ==> items[i] is Ok,
    ensures
        drained(items) == Err::<Seq<u8>, std::io::Error>(items[k]->Err_0),
    decreases k,
{
    if k > 0 {
        lemma_error_stops_drain(items.drop_first(), k - 1);
    }
}

/// A body yields of an underlying stream only what precedes and includes
/// its first error, and draining that is draining the stream itself.
pub proof fn lemma_fuse_preserves_drained(items: Seq<Result<Seq<u8>, std::io::Error>>)
    ensures
        drained(fuse(items)) == drained(items),
    decreases items.len(),
{
    if items.len() == 0 {
    } else if items[0] is Err {
        assert(fuse(items) == seq![items[0]]);
        assert(fuse(items)[0] == items[0]);
    } else {
        lemma_fuse_preserves_drained(items.drop_first());
        let fused = seq![items[0]] + fuse(items.drop_first());
        assert(fuse(items) == fused);
        assert(fused[0] == items[0]);
        assert(fused.drop_first() =~= fuse(items.drop_first()));
    }
}

/// Reverse a vector, so that items can be taken from its end in the
/// original order.
pub(crate) fn reversed<T>(items: Vec<T>) -> (r: Vec<T>)
    ensures
        r@ == items@.reverse(),
{
    let ghost all = items@;
    let mut src = items;
    let mut out: Vec<T> = Vec::new();
    while src.len() > 0
        invariant
            src@ == all.take(src@.len() as int),
            src@.len() + out@.len() == all.len(),
            forall|i: int| 0 <= i < out@.len() ==> out@[i] == all[all.len() - 1 - i],
        decreases src@.len(),
    {
        let item = src.pop();
        match item {
            Some(it) => {
                out.push(it);
            },
            None => {},
        }
    }
    proof {
        assert(out@ =~= all.reverse());
    }
    out
}

/// A nonempty view starts the way `fuse` left it; this unfolds `fuse` one
/// step for the callers above.
proof fn lemma_fuse_first(items: Seq<Result<Seq<u8>, std::io::Error>>)
    ensures
        items.len() == 0 ==> fuse(items) == Seq::<Result<Seq<u8>, std::io::Error>>::empty(),
        items.len() > 0 && items[0] is Err ==> fuse(items) == seq![items[0]],
        items.len() > 0 && items[0] is Ok ==> fuse(items) == seq![items[0]] + fuse(
            items.drop_first(),
        ),
{
}

} // verus!

