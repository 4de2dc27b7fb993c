//! Buffered-reader bookkeeping and the line-assembly step of reading up to
//! a delimiter. The byte source itself lives outside the library; these
//! routines manage the buffer window and decide how much of each refilled
//! chunk belongs to the current line.

use vstd::prelude::*;

use crate::helpers::{first_index_of, lemma_first_index_of};

verus! {

/// Why reading a line into a string failed: the underlying read failed, or
/// the bytes were not valid UTF-8.
pub enum ReadToStringError<R> {
    Read(R),
    InvalidUtf8,
}

/// A small fixed window over an underlying byte source; the source fills
/// it, and consumers take bytes from the front.
pub struct BufReader<R> {
    /// The byte source the buffer is filled from.
    pub underlying: R,
    /// First unconsumed byte of the window.
    pub buf_pos: usize,
    /// End of the valid bytes in the window.
    pub buf_len: usize,
    /// The window itself.
    pub buf: Vec<u8>,
}

impl<R> BufReader<R> {
    /// The buffer window is consistent: the valid range lies inside the
    /// fixed-size buffer.
    pub open spec fn well_formed(&self) -> bool {
        self.buf_pos <= self.buf_len <= self.buf@.len() && self.buf@.len() == 64
    }

    /// Wraps a byte source with an empty window.
    pub fn new(inner: R) -> (r: Self)
        ensures
            r.well_formed(),
            r.underlying == inner,
            r.buf_pos == 0,
            r.buf_len == 0,
    {
        let mut buf: Vec<u8> = Vec::new();
        let mut i: usize = 0;
        while i < 64
            invariant
                buf@.len() == i,
                0 <= i <= 64,
            decreases 64 - i,
        {
            buf.push(0);
            i = i + 1;
        }
        BufReader { underlying: inner, buf_pos: 0, buf_len: 0, buf }
    }

    /// Hands the byte source back.
    pub fn into_inner(self) -> (r: R)
        ensures
            r == self.underlying,
    {
        self.underlying
    }

    /// The unconsumed bytes of the window.
    pub fn buffered<'a>(&'a self) -> (r: &'a [u8])
        requires
            self.well_formed(),
        ensures
            r@ == self.buf@.subrange(self.buf_pos as int, self.buf_len as int),
    {
        &self.buf.as_slice()[self.buf_pos..self.buf_len]
    }

    /// Marks `amount` buffered bytes as consumed.
    pub fn consume(&mut self, amount: usize)
        requires
            old(self).well_formed(),
            amount <= old(self).buf_len - old(self).buf_pos,
        ensures
            final(self).well_formed(),
            final(self).buf_pos == old(self).buf_pos + amount,
            final(self).buf_len == old(self).buf_len,
            final(self).buf@ == old(self).buf@,
            final(self).underlying == old(self).underlying,
    {
        self.buf_pos = self.buf_pos + amount;
    }

    /// Replaces the window's content with as much of `data` as fits and
    /// returns how much was taken.
    pub fn refill(&mut self, data: &[u8]) -> (n: usize)
        requires
            old(self).well_formed(),
        ensures
            final(self).well_formed(),
            n as int == if data@.len() < 64 {
                data@.len() as int
            } else {
                64int
            },
            final(self).buf_pos == 0,
            final(self).buf_len == n,
            final(self).buf@.subrange(0, n as int) == data@.subrange(0, n as int),
            final(self).underlying == old(self).underlying,
    {
        let n: usize = if data.len() < 64 {
            data.len()
        } else {
            64
        };
        let mut i: usize = 0;
        while i < n
            invariant
                0 <= i <= n,
                n <= 64,
                n <= data@.len(),
                self.buf@.len() == 64,
                self.underlying == old(self).underlying,
                forall|j: int| 0 <= j < i ==> self.buf@[j] == data@[j],
            decreases n - i,
        {
            let b = data[i];
            self.buf.set(i, b);
            i = i + 1;
        }
        self.buf_pos = 0;
        self.buf_len = n;
        proof {
            assert(self.buf@.subrange(0, n as int) =~= data@.subrange(0, n as int));
        }
        n
    }
}

/// Relies on memchr::memchr: the index of the first occurrence of `needle`
/// in `haystack`, or `None` when it does not occur.
#[verifier::external_body]
fn memchr_first(needle: u8, haystack: &[u8]) -> (r: Option<usize>)
    ensures
        match r {
            Some(i) => first_index_of(haystack@, needle) == Some(i as int),
            None => first_index_of(haystack@, needle) is None,
        },
{
    memchr::memchr(needle, haystack)
}

/// Takes one refilled chunk's worth of a line: appends to `out` everything
/// up to and including the first `delim` of `chunk` — or all of `chunk`
/// when `delim` does not occur — and reports how many bytes were used and
/// whether the delimiter was reached.
pub fn take_line_chunk(out: &mut Vec<u8>, chunk: &[u8], delim: u8) -> (r: (usize, bool))
    ensures
        match first_index_of(chunk@, delim) {
            Some(i) => r.0 == i + 1 && r.1 == true && final(out)@ == old(out)@ + chunk@.take(i + 1),
            None => r.0 == chunk@.len() && r.1 == false && final(out)@ == old(out)@ + chunk@,
        },
{
    proof {
        lemma_first_index_of(chunk@, delim);
    }
    let clen = chunk.len();
    let pair: (usize, bool) = match memchr_first(delim, chunk) {
        Some(i) => (i + 1, true),
        None => (clen, false),
    };
    let used = pair.0;
    let found = pair.1;
    proof {
        assert(old(out)@ + chunk@.take(0) =~= old(out)@);
    }
    let mut j: usize = 0;
    while j < used
        invariant
            0 <= j <= used,
            used <= chunk@.len(),
            out@ == old(out)@ + chunk@.take(j as int),
        decreases used - j,
    {
        let b = chunk[j];
        let ghost before = out@;
        out.push(b);
        proof {
            assert(before.push(chunk@[j as int]) =~= old(out)@ + chunk@.take(j + 1));
        }
        j = j + 1;
    }
    proof {
        if first_index_of(chunk@, delim) is None {
            assert(chunk@.take(chunk@.len() as int) =~= chunk@);
        }
    }
    (used, found)
}

} // verus!
