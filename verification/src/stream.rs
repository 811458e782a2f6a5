use vstd::prelude::*;

use crate::error::SpkError;

verus! {

/// The views of a sequence of part buffers.
pub open spec fn part_views(parts: Seq<Vec<u8>>) -> Seq<Seq<u8>> {
    parts.map_values(|p: Vec<u8>| p@)
}

/// One or more physically separate archive parts presented as a single
/// continuous, random-access byte stream.
///
/// A read or a seek that crosses a part boundary is invisible to the
/// caller: the stream behaves exactly as if it were backed by one file
/// holding the concatenation of the parts in the order they were given.
pub struct SplitStream {
    data: Vec<u8>,
    cursor: u64,
}

impl View for SplitStream {
    type V = Seq<u8>;

    closed spec fn view(&self) -> Seq<u8> {
        self.data@
    }
}

impl SplitStream {
    /// The current read position.  Seeks may place it past the end of the
    /// stream; reads from there fail as truncated.
    pub closed spec fn spec_pos(&self) -> u64 {
        self.cursor
    }

    /// Builds the stream from the parts of a split archive, given in
    /// ascending part-number order.  An archive held in a single file is
    /// the one-part case.  Zero parts are rejected: there is nothing to
    /// present as a stream.
    pub fn from_parts(parts: Vec<Vec<u8>>) -> (r: Result<SplitStream, SpkError>)
        ensures
            match r {
                Ok(s) => {
                    &&& parts@.len() > 0
                    &&& s@ == part_views(parts@).flatten()
                    &&& s.spec_pos() == 0
                },
                Err(e) => e == SpkError::NoParts && parts@.len() == 0,
            },
    {
        if parts.len() == 0 {
            return Err(SpkError::NoParts);
        }
        let mut data: Vec<u8> = Vec::new();
        let mut i: usize = 0;
        while i < parts.len()
            invariant
                i <= parts@.len(),
                data@ == part_views(parts@).take(i as int).flatten(),
            decreases parts@.len() - i,
        {
            data.extend_from_slice(parts[i].as_slice());
            proof {
                broadcast use vstd::prelude::Seq::lemma_flatten_push;

                assert(part_views(parts@).take(i + 1)
                    =~= part_views(parts@).take(i as int).push(parts@[i as int]@));
            }
            i = i + 1;
        }
        proof {
            assert(part_views(parts@).take(parts@.len() as int) =~= part_views(parts@));
        }
        Ok(SplitStream { data, cursor: 0 })
    }

    /// Wraps an already-continuous buffer, the single-file form of an
    /// archive.
    pub fn from_vec(data: Vec<u8>) -> (r: SplitStream)
        ensures
            r@ == data@,
            r.spec_pos() == 0,
    {
        SplitStream { data, cursor: 0 }
    }

    /// Total length of the logical stream: the sum of the part lengths.
    pub fn len(&self) -> (r: usize)
        ensures
            r == self@.len(),
    {
        self.data.len()
    }

    /// The current read position as a number.
    pub fn position(&self) -> (r: u64)
        ensures
            r == self.spec_pos(),
    {
        self.cursor
    }

    /// Moves the read position to an absolute offset.  Like a file seek,
    /// moving past the end succeeds; only a later read fails.
    pub fn seek(&mut self, to: u64)
        ensures
            final(self)@ == old(self)@,
            final(self).spec_pos() == to,
    {
        self.cursor = to;
    }

    /// Reads exactly `n` bytes without touching the read position.
    pub fn read_at(&self, at: u64, n: usize) -> (r: Result<Vec<u8>, SpkError>)
        ensures
            match r {
                Ok(b) => {
                    &&& at + n <= self@.len()
                    &&& b@ == self@.subrange(at as int, at + n)
                },
                Err(e) => e == SpkError::Truncated && at + n > self@.len(),
            },
    {
        if at > self.data.len() as u64 || n as u64 > self.data.len() as u64 - at {
            return Err(SpkError::Truncated);
        }
        let start = at as usize;
        let mut out: Vec<u8> = Vec::new();
        let mut i: usize = 0;
        while i < n
            invariant
                i <= n,
                start + n <= self.data@.len(),
                start + n <= usize::MAX,
                start == at,
                out@ == self.data@.subrange(start as int, start + i),
            decreases n - i,
        {
            out.push(self.data[start + i]);
            proof {
                assert(self.data@.subrange(start as int, start + i + 1)
                    =~= self.data@.subrange(start as int, start + i).push(
                    self.data@[start + i],
                ));
            }
            i = i + 1;
        }
        Ok(out)
    }

    /// Reads exactly `n` bytes at the read position and advances it.  On a
    /// truncated read nothing changes.
    pub fn read_exact(&mut self, n: usize) -> (r: Result<Vec<u8>, SpkError>)
        ensures
            final(self)@ == old(self)@,
            match r {
                Ok(b) => {
                    &&& old(self).spec_pos() + n <= old(self)@.len()
                    &&& b@ == old(self)@.subrange(
                        old(self).spec_pos() as int,
                        old(self).spec_pos() + n,
                    )
                    &&& final(self).spec_pos() == old(self).spec_pos() + n
                },
                Err(e) => {
                    &&& e == SpkError::Truncated
                    &&& old(self).spec_pos() + n > old(self)@.len()
                    &&& final(self).spec_pos() == old(self).spec_pos()
                },
            },
    {
        let r = self.read_at(self.cursor, n);
        match r {
            Ok(b) => {
                let total = self.data.len();
                assert(self.cursor + n <= total);
                self.cursor = self.cursor + n as u64;
                Ok(b)
            },
            Err(e) => Err(e),
        }
    }
}

} // verus!
