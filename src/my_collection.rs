//! A small producer that serves a fixed greeting line a given number of times.

use crate::error::Error;
use crate::reader::{BufRead, IntoBufReader};
use vstd::prelude::*;

verus! {

/// The line a `MyReader` serves.
pub open spec fn greeting() -> Seq<u8> {
    seq![104u8, 101, 108, 108, 111, 32, 98, 117, 102, 114, 101, 97, 100, 101, 114, 10]
}

/// `s` repeated `n` times.
pub open spec fn repeat(s: Seq<u8>, n: nat) -> Seq<u8>
    decreases n,
{
    if n == 0 {
        Seq::empty()
    } else {
        s + repeat(s, (n - 1) as nat)
    }
}

fn greeting_bytes() -> (r: Vec<u8>)
    ensures
        r@ == greeting(),
{
    let r: Vec<u8> = vec![104u8, 101, 108, 108, 111, 32, 98, 117, 102, 114, 101, 97, 100, 101, 114, 10];
    assert(r@ =~= greeting());
    r
}

/// An object whose stream is the greeting line, `data` times.
#[derive(Clone, Copy)]
pub struct MyObject {
    pub data: usize,
}

/// A producer of the greeting line, `data` more times after what it holds.
pub struct MyReader {
    data: usize,
    representation: Vec<u8>,
    pos: usize,
}

impl MyReader {
    /// A producer that serves the greeting line `data` times.
    pub fn new(data: usize) -> (r: MyReader)
        ensures
            r.inv(),
            r.rest() == repeat(greeting(), data as nat),
            r.end() is None,
    {
        let representation = Vec::new();
        let r = MyReader { data, representation, pos: 0 };
        assert(r.representation@.subrange(0, 0) =~= Seq::<u8>::empty());
        assert(r.rest() =~= repeat(greeting(), data as nat));
        r
    }
}

impl BufRead for MyReader {
    closed spec fn rest(&self) -> Seq<u8> {
        self.pending() + repeat(greeting(), self.data as nat)
    }

    closed spec fn end(&self) -> Option<Error> {
        None
    }

    closed spec fn pending(&self) -> Seq<u8> {
        self.representation@.subrange(self.pos as int, self.representation@.len() as int)
    }

    closed spec fn inv(&self) -> bool {
        self.pos <= self.representation@.len()
    }

    proof fn lemma_pending_prefix(&self) {
        assert(self.pending() =~= self.rest().subrange(0, self.pending().len() as int));
    }

    fn fill_buf(&mut self) -> (r: Result<&[u8], Error>)
        ensures
            old(self).pending().len() == 0 && old(self).rest().len() > 0 ==> r is Ok
                && r->Ok_0@ == greeting(),
    {
        if self.data > 0 {
            if self.pos >= self.representation.len() {
                let buf = greeting_bytes();
                self.pos = 0;
                self.representation = buf;
                self.data = self.data - 1;
                assert(self.pending() =~= greeting());
                assert(old(self).pending() =~= Seq::<u8>::empty());
                assert(self.rest() =~= old(self).rest());
            }
            let r = &self.representation.as_slice()[self.pos..self.representation.len()];
            assert(r@ =~= self.rest().subrange(0, r@.len() as int));
            Ok(r)
        } else {
            let r = &self.representation.as_slice()[self.pos..self.representation.len()];
            assert(old(self).rest() =~= old(self).pending());
            assert(r@ =~= self.rest().subrange(0, r@.len() as int));
            Ok(r)
        }
    }

    fn consume(&mut self, amt: usize) {
        let total: usize = self.representation.len();
        assert(self.pending().len() == total - self.pos);
        self.pos = self.pos + amt;
        assert(self.pending() =~= old(self).pending().subrange(
            amt as int,
            old(self).pending().len() as int,
        ));
        assert(self.rest() =~= old(self).rest().subrange(amt as int, old(self).rest().len() as int));
    }
}

impl IntoBufReader for MyObject {
    type BufReader = MyReader;

    open spec fn contents(&self) -> Seq<u8> {
        repeat(greeting(), self.data as nat)
    }

    open spec fn outcome(&self) -> Option<Error> {
        None
    }

    fn into_bufreader(self) -> (r: MyReader) {
        MyReader::new(self.data)
    }
}

} // verus!
