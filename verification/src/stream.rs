//! Body-size limiting and chunk aggregation. A response body arrives as a
//! sequence of chunks; the limiter admits chunks while their running total
//! stays within the limit and rejects the first chunk that would exceed it,
//! so no more than `limit` bytes are ever buffered.
use vstd::prelude::*;

use crate::error::ErrorKind;

verus! {

/// Running byte count of a size-limited body.
pub struct Limiter {
    limit: usize,
    count: usize,
}

/// The sum of the lengths of the first `i` chunks.
pub open spec fn prefix_len(chunks: Seq<Seq<u8>>, i: int) -> int
    decreases i,
{
    if i <= 0 {
        0
    } else {
        prefix_len(chunks, i - 1) + chunks[i - 1].len()
    }
}

impl Limiter {
    pub closed spec fn limit(self) -> int {
        self.limit as int
    }

    pub closed spec fn count(self) -> int {
        self.count as int
    }

    /// The byte count never passes the limit: that bounds what a caller
    /// buffering admitted chunks can accumulate.
    pub open spec fn wf(self) -> bool {
        self.count() <= self.limit()
    }

    pub fn new(limit: usize) -> (r: Self)
        ensures
            r.limit() == limit,
            r.count() == 0,
            r.wf(),
    {
        Limiter { limit, count: 0 }
    }

    /// Admit a chunk of `len` bytes, or reject it with `BodyTooLarge` when it
    /// would push the body past the limit. A rejected chunk leaves the count
    /// unchanged; the caller stops consuming the stream.
    pub fn accept(&mut self, len: usize) -> (r: Result<(), ErrorKind>)
        requires
            old(self).wf(),
        ensures
            final(self).wf(),
            final(self).limit() == old(self).limit(),
            r is Ok <==> old(self).count() + len <= old(self).limit(),
            r is Ok ==> final(self).count() == old(self).count() + len,
            r matches Err(e) ==> e == ErrorKind::BodyTooLarge && final(self).count() == old(
                self,
            ).count(),
    {
        if len <= self.limit - self.count {
            self.count = self.count + len;
            Ok(())
        } else {
            Err(ErrorKind::BodyTooLarge)
        }
    }
}

/// Pass a body through the limiter whole: the concatenation of its chunks if
/// their total stays within `limit`, and `BodyTooLarge` as soon as a chunk
/// would exceed it — later chunks are never read, and at most `limit` bytes
/// are buffered.
pub fn limit_body(chunks: &Vec<Vec<u8>>, limit: usize) -> (r: Result<Vec<u8>, ErrorKind>)
    ensures
        r matches Ok(body) ==> {
            &&& body@ == chunks@.map_values(|c: Vec<u8>| c@).flatten()
            &&& body@.len() <= limit
        },
        r matches Err(e) ==> {
            &&& e == ErrorKind::BodyTooLarge
            &&& prefix_len(chunks@.map_values(|c: Vec<u8>| c@), chunks@.len() as int) > limit
        },
        (r is Ok) <==> prefix_len(chunks@.map_values(|c: Vec<u8>| c@), chunks@.len() as int)
            <= limit,
{
    let ghost views = chunks@.map_values(|c: Vec<u8>| c@);
    let mut limiter = Limiter::new(limit);
    let mut body: Vec<u8> = Vec::new();
    let mut i: usize = 0;
    proof {
        assert(views.take(0).flatten() =~= Seq::<u8>::empty());
    }
    while i < chunks.len()
        invariant
            0 <= i <= chunks.len(),
            views == chunks@.map_values(|c: Vec<u8>| c@),
            limiter.wf(),
            limiter.limit() == limit,
            limiter.count() == prefix_len(views, i as int),
            body@ == views.take(i as int).flatten(),
            body@.len() == limiter.count(),
        decreases chunks.len() - i,
    {
        let chunk = &chunks[i];
        match limiter.accept(chunk.len()) {
            Ok(()) => {},
            Err(e) => {
                proof {
                    lemma_prefix_len_monotone(views, i + 1, views.len() as int);
                }
                return Err(e);
            },
        }
        body.extend_from_slice(chunk.as_slice());
        proof {
            assert(views.take(i + 1) =~= views.take(i as int).push(views[i as int]));
            views.take(i as int).lemma_flatten_push(views[i as int]);
        }
        i = i + 1;
    }
    proof {
        assert(views.take(views.len() as int) =~= views);
    }
    Ok(body)
}

/// Prefix sums of chunk lengths only grow.
pub proof fn lemma_prefix_len_monotone(chunks: Seq<Seq<u8>>, i: int, j: int)
    requires
        0 <= i <= j,
    ensures
        prefix_len(chunks, i) <= prefix_len(chunks, j),
    decreases j,
{
    if i < j {
        lemma_prefix_len_monotone(chunks, i, j - 1);
    }
}

/// Gather the chunks of an already-limited body into one buffer.
pub fn aggregate(chunks: Vec<Vec<u8>>) -> (r: Vec<u8>)
    ensures
        r@ == chunks@.map_values(|c: Vec<u8>| c@).flatten(),
{
    let ghost views = chunks@.map_values(|c: Vec<u8>| c@);
    let mut buf: Vec<u8> = Vec::new();
    let mut i: usize = 0;
    proof {
        assert(views.take(0).flatten() =~= Seq::<u8>::empty());
    }
    while i < chunks.len()
        invariant
            0 <= i <= chunks.len(),
            views == chunks@.map_values(|c: Vec<u8>| c@),
            buf@ == views.take(i as int).flatten(),
        decreases chunks.len() - i,
    {
        buf.extend_from_slice(chunks[i].as_slice());
        proof {
            assert(views.take(i + 1) =~= views.take(i as int).push(views[i as int]));
            views.take(i as int).lemma_flatten_push(views[i as int]);
        }
        i = i + 1;
    }
    proof {
        assert(views.take(views.len() as int) =~= views);
    }
    buf
}

} // verus!
