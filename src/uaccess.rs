//! A reader's destination memory: a region of a given length of which only a
//! prefix may be writable.

use crate::error::{Error, EFAULT};
use vstd::prelude::*;

verus! {

/// Writes into a reader's buffer of `len` bytes. Only the first `accessible`
/// bytes can be written: a copy that would reach past them faults, and
/// nothing of it is written.
pub struct UserSliceWriter {
    data: Vec<u8>,
    len: usize,
    accessible: usize,
}

impl UserSliceWriter {
    pub closed spec fn wf(&self) -> bool {
        self.data@.len() <= self.len
    }

    /// The bytes written so far.
    pub closed spec fn written(&self) -> Seq<u8> {
        self.data@
    }

    /// The length of the buffer.
    pub closed spec fn capacity(&self) -> nat {
        self.len as nat
    }

    /// How many bytes from the start of the buffer can be written.
    pub closed spec fn accessible(&self) -> nat {
        self.accessible as nat
    }

    /// What is written fits in the buffer.
    pub proof fn lemma_remaining(&self)
        requires
            self.wf(),
        ensures
            self.remaining() >= 0,
            self.written().len() <= self.capacity(),
    {
    }

    /// Room left in the buffer.
    pub open spec fn remaining(&self) -> int {
        self.capacity() - self.written().len()
    }

    /// A writer for a buffer of `len` bytes of which the first `accessible`
    /// can be written.
    pub fn new(len: usize, accessible: usize) -> (r: UserSliceWriter)
        ensures
            r.wf(),
            r.written() == Seq::<u8>::empty(),
            r.capacity() == len,
            r.accessible() == accessible,
    {
        UserSliceWriter { data: Vec::new(), len, accessible }
    }

    /// Room left in the buffer.
    pub fn len(&self) -> (r: usize)
        requires
            self.wf(),
        ensures
            r == self.remaining(),
    {
        self.len - self.data.len()
    }

    /// The bytes written so far.
    pub fn as_slice(&self) -> (r: &[u8])
        ensures
            r@ == self.written(),
    {
        self.data.as_slice()
    }

    /// Copies `s` to the buffer after what is written; faults when there is
    /// no room for it or when it would reach past the writable prefix.
    pub fn write_slice(&mut self, s: &[u8]) -> (r: Result<(), Error>)
        requires
            old(self).wf(),
        ensures
            final(self).wf(),
            final(self).capacity() == old(self).capacity(),
            final(self).accessible() == old(self).accessible(),
            ({
                let fits = s@.len() <= old(self).remaining() && old(self).written().len() + s@.len()
                    <= old(self).accessible();
                if fits {
                    r is Ok && final(self).written() == old(self).written() + s@
                } else {
                    r == Err::<(), Error>(Error { errno: EFAULT }) && final(self).written()
                        == old(self).written()
                }
            }),
    {
        if s.len() > self.len - self.data.len() || s.len() > self.accessible || self.data.len()
            > self.accessible - s.len() {
            return Err(Error { errno: EFAULT });
        }
        let mut i: usize = 0;
        while i < s.len()
            invariant
                i <= s@.len(),
                self.len == old(self).len,
                self.accessible == old(self).accessible,
                self.data@ == old(self).data@ + s@.subrange(0, i as int),
                old(self).data@.len() + s@.len() <= self.len,
            decreases s@.len() - i,
        {
            self.data.push(s[i]);
            assert(s@.subrange(0, i + 1) =~= s@.subrange(0, i as int).push(s@[i as int]));
            i = i + 1;
        }
        assert(s@.subrange(0, s@.len() as int) =~= s@);
        Ok(())
    }
}

} // verus!
