//! Producers of byte streams that hand out their data in chunks, and the
//! objects that make a fresh producer for each reader.

use crate::error::Error;
use vstd::prelude::*;

verus! {

/// A producer of a byte stream that computes its data chunk by chunk.
///
/// The stream still to come is `rest()`; after it the stream ends cleanly
/// (`end()` is `None`) or with an error. `pending()` is the part of `rest()`
/// already computed, which `fill_buf` hands out without further work.
pub trait BufRead: Sized {
    spec fn rest(&self) -> Seq<u8>;

    spec fn end(&self) -> Option<Error>;

    spec fn pending(&self) -> Seq<u8>;

    spec fn inv(&self) -> bool;

    /// What is computed is the start of what is still to come.
    proof fn lemma_pending_prefix(&self)
        requires
            self.inv(),
        ensures
            self.pending().len() <= self.rest().len(),
            self.pending() == self.rest().subrange(0, self.pending().len() as int),
    ;

    /// Returns the computed bytes not yet consumed, computing more when there
    /// are none. An empty slice means the stream has ended cleanly; an error
    /// is the one the stream ends with. The stream itself is not changed.
    fn fill_buf(&mut self) -> (r: Result<&[u8], Error>)
        requires
            old(self).inv(),
        ensures
            final(self).inv(),
            final(self).rest() == old(self).rest(),
            final(self).end() == old(self).end(),
            old(self).pending().len() > 0 ==> *final(self) == *old(self),
            match r {
                Ok(s) => {
                    &&& s@ == final(self).pending()
                    &&& s@.len() <= old(self).rest().len()
                    &&& s@ == old(self).rest().subrange(0, s@.len() as int)
                    &&& (s@.len() == 0 <==> old(self).rest().len() == 0)
                    &&& s@.len() == 0 ==> old(self).end() is None
                },
                Err(e) => {
                    &&& old(self).rest().len() == 0
                    &&& old(self).end() == Some(e)
                    &&& 0 < e.errno < 4096
                },
            },
    ;

    /// Marks the first `amt` computed bytes as delivered.
    fn consume(&mut self, amt: usize)
        requires
            old(self).inv(),
            amt <= old(self).pending().len(),
        ensures
            final(self).inv(),
            final(self).rest() == old(self).rest().subrange(amt as int, old(self).rest().len() as int),
            final(self).pending() == old(self).pending().subrange(
                amt as int,
                old(self).pending().len() as int,
            ),
            final(self).end() == old(self).end(),
    ;
}

/// An object that many readers can read at once, each through a producer
/// of its own. Every producer starts with the whole stream `contents()`,
/// which ends as `outcome()` says.
pub trait IntoBufReader: Sized {
    type BufReader: BufRead;

    spec fn contents(&self) -> Seq<u8>;

    spec fn outcome(&self) -> Option<Error>;

    fn into_bufreader(self) -> (r: Self::BufReader)
        ensures
            r.inv(),
            r.rest() == self.contents(),
            r.end() == self.outcome(),
    ;
}

} // verus!
