//! Cutting uploaded content into chunks of a fixed size, and guarding an
//! upload against more bytes than it announced.
use vstd::prelude::*;
use vstd::slice::slice_subrange;

verus! {

/// Bytes waiting to be cut into chunks of `chunk_size` bytes.
#[derive(Debug)]
pub struct ChunkStream {
    chunk_size: usize,
    buff: Vec<u8>,
}

impl ChunkStream {
    pub closed spec fn chunk_size(&self) -> nat {
        self.chunk_size as nat
    }

    /// The bytes received and not yet handed out.
    pub closed spec fn buffered(&self) -> Seq<u8> {
        self.buff@
    }

    pub fn new(chunk_size: usize) -> (r: ChunkStream)
        requires
            chunk_size > 0,
        ensures
            r.chunk_size() == chunk_size,
            r.buffered() == Seq::<u8>::empty(),
    {
        ChunkStream { chunk_size, buff: Vec::new() }
    }

    /// Takes in more bytes.
    pub fn extend(&mut self, bytes: &[u8])
        ensures
            final(self).chunk_size() == old(self).chunk_size(),
            final(self).buffered() == old(self).buffered() + bytes@,
    {
        let ghost start = self.buff@;
        let mut i: usize = 0;
        while i < bytes.len()
            invariant
                i <= bytes@.len(),
                self.chunk_size == old(self).chunk_size,
                self.buff@ == start + bytes@.take(i as int),
            decreases bytes@.len() - i,
        {
            self.buff.push(bytes[i]);
            assert(self.buff@ =~= start + bytes@.take(i + 1));
            i = i + 1;
        }
        assert(bytes@.take(i as int) =~= bytes@);
    }

    /// A full chunk, where enough bytes are buffered: the first
    /// `chunk_size` of them.
    pub fn next_chunk(&mut self) -> (r: Option<Vec<u8>>)
        ensures
            final(self).chunk_size() == old(self).chunk_size(),
            old(self).buffered().len() < old(self).chunk_size() ==> r is None && final(self).buffered() == old(self).buffered(),
            old(self).buffered().len() >= old(self).chunk_size() ==> (r matches Some(c)
                && c@ == old(self).buffered().take(old(self).chunk_size() as int)
                && final(self).buffered() == old(self).buffered().skip(old(self).chunk_size() as int)),
    {
        if self.buff.len() < self.chunk_size {
            return None;
        }
        let chunk = vstd::slice::slice_to_vec(slice_subrange(self.buff.as_slice(), 0, self.chunk_size));
        let rest = vstd::slice::slice_to_vec(slice_subrange(self.buff.as_slice(), self.chunk_size, self.buff.len()));
        self.buff = rest;
        Some(chunk)
    }

    /// Once no more bytes come: what is left, if anything is.
    pub fn finish(&mut self) -> (r: Option<Vec<u8>>)
        ensures
            final(self).chunk_size() == old(self).chunk_size(),
            final(self).buffered() == Seq::<u8>::empty(),
            old(self).buffered().len() == 0 ==> r is None,
            old(self).buffered().len() > 0 ==> (r matches Some(c) && c@ == old(self).buffered()),
    {
        if self.buff.len() == 0 {
            return None;
        }
        let out = vstd::slice::slice_to_vec(self.buff.as_slice());
        self.buff = Vec::new();
        Some(out)
    }
}

/// Whether content of `expected_size` bytes is stored in chunks of
/// `chunk_size` bytes, rather than in one piece.
pub fn should_chunk(expected_size: u64, chunk_size: u64) -> (r: bool)
    ensures
        r == (expected_size > chunk_size),
{
    expected_size > chunk_size
}

/// More bytes came than were announced.
#[derive(Debug, Clone, Copy, PartialEq, Eq)]
pub struct InvalidSize {
    pub expected: u64,
    pub observed: u64,
}

/// Counts the bytes of an upload against the size it announced.
#[derive(Debug)]
pub struct SizeGuard {
    expected: u64,
    observed: u64,
}

impl SizeGuard {
    pub closed spec fn expected(&self) -> nat {
        self.expected as nat
    }

    /// The bytes seen so far, up to the largest count that fits in 64 bits.
    pub closed spec fn observed(&self) -> nat {
        self.observed as nat
    }

    pub fn new(expected: u64) -> (r: SizeGuard)
        ensures
            r.expected() == expected,
            r.observed() == 0,
    {
        SizeGuard { expected, observed: 0 }
    }

    /// Counts `len` more bytes; fails once more bytes than announced came.
    pub fn observe(&mut self, len: u64) -> (r: Result<(), InvalidSize>)
        ensures
            final(self).expected() == old(self).expected(),
            final(self).observed() == vstd::math::min(old(self).observed() + len, u64::MAX as int),
            r is Ok <==> final(self).observed() <= final(self).expected(),
            r matches Err(e) ==> e.expected == old(self).expected() && e.observed == final(self).observed(),
    {
        self.observed = self.observed.saturating_add(len);
        if self.observed > self.expected {
            Err(InvalidSize { expected: self.expected, observed: self.observed })
        } else {
            Ok(())
        }
    }
}

} // verus!
