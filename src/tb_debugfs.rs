//! A reader state that counts objects down and serves one text line per
//! object, flushing as much of the current line as each read asks for.

use crate::error::EFAULT;
use crate::printbuf::{decimal, Printbuf, lemma_decimal_len};
use crate::uaccess::UserSliceWriter;
use vstd::prelude::*;
use vstd::slice::slice_to_vec;

verus! {

/// Number of objects a freshly opened state counts down from.
pub const TB_NUM_OBJECTS: usize = 7;

/// Start of each line: `tb_rs_read: data: MyObject: `.
pub open spec fn line_prefix() -> Seq<u8> {
    seq![
        116u8, 98, 95, 114, 115, 95, 114, 101, 97, 100, 58, 32, 100, 97, 116, 97, 58, 32, 77,
        121, 79, 98, 106, 101, 99, 116, 58, 32,
    ]
}

/// The line served for the object holding `n`.
pub open spec fn item_line(n: nat) -> Seq<u8> {
    line_prefix() + decimal(n) + seq![10u8]
}

fn line_prefix_bytes() -> (r: Vec<u8>)
    ensures
        r@ == line_prefix(),
{
    let r: Vec<u8> = vec![
        116u8, 98, 95, 114, 115, 95, 114, 101, 97, 100, 58, 32, 100, 97, 116, 97, 58, 32, 77,
        121, 79, 98, 106, 101, 99, 116, 58, 32,
    ];
    assert(r@ =~= line_prefix());
    r
}

/// A countdown: each step yields one less than before, down to one.
struct MyCollection {
    num_objects: usize,
}

impl MyCollection {
    /// Counts down; yields the new count while it is positive. An exhausted
    /// collection stays exhausted.
    fn next(&mut self) -> (r: Option<usize>)
        ensures
            old(self).num_objects == 0 ==> r is None && final(self).num_objects == 0,
            old(self).num_objects > 0 ==> final(self).num_objects == old(self).num_objects - 1,
            old(self).num_objects > 1 ==> r == Some((old(self).num_objects - 1) as usize),
            old(self).num_objects <= 1 ==> r is None,
    {
        if self.num_objects == 0 {
            return None;
        }
        self.num_objects = self.num_objects - 1;
        if self.num_objects > 0 {
            Some(self.num_objects)
        } else {
            None
        }
    }
}

/// Per-open state: the part of the current line not yet read, and the
/// countdown.
pub struct DebugfsState {
    buf: Option<Vec<u8>>,
    data: MyCollection,
}

/// What a buffer holds: its bytes, or nothing.
pub open spec fn held(b: Option<Vec<u8>>) -> Seq<u8> {
    match b {
        Some(v) => v@,
        None => Seq::empty(),
    }
}

impl DebugfsState {
    /// The part of the current line not yet read.
    pub closed spec fn pending(&self) -> Seq<u8> {
        held(self.buf)
    }

    /// The current count.
    pub closed spec fn count(&self) -> nat {
        self.data.num_objects as nat
    }

    /// Copies up to `len` bytes of the current line to `writer` and keeps
    /// the rest; returns how many were copied, or the negated `EFAULT` when
    /// the copy faults, in which case nothing changes.
    pub fn flush_buf(&mut self, len: usize, writer: &mut UserSliceWriter) -> (r: isize)
        requires
            old(writer).wf(),
            len <= isize::MAX,
        ensures
            final(writer).wf(),
            final(writer).capacity() == old(writer).capacity(),
            final(writer).accessible() == old(writer).accessible(),
            final(self).count() == old(self).count(),
            ({
                let p = old(self).pending();
                let n = if len < p.len() {
                    len as int
                } else {
                    p.len() as int
                };
                let fits = n <= old(writer).remaining() && old(writer).written().len() + n
                    <= old(writer).accessible();
                if n == 0 {
                    r == 0 && final(self).pending() == p && final(writer).written()
                        == old(writer).written()
                } else if fits {
                    &&& r == n
                    &&& final(writer).written() == old(writer).written() + p.subrange(0, n)
                    &&& final(self).pending() == p.subrange(n, p.len() as int)
                } else {
                    &&& r == (-EFAULT) as isize
                    &&& final(writer).written() == old(writer).written()
                    &&& final(self).pending() == p
                }
            }),
    {
        let mut new_buf: Option<Vec<u8>> = None;
        match &self.buf {
            Some(buf) => {
                let n: usize = if len < buf.len() {
                    len
                } else {
                    buf.len()
                };
                if n > 0 {
                    let chunk = &buf.as_slice()[0..n];
                    match writer.write_slice(chunk) {
                        Ok(_) => {},
                        Err(_) => {
                            return -14;
                        },
                    }
                    if n < buf.len() {
                        let remainder = slice_to_vec(&buf.as_slice()[n..buf.len()]);
                        new_buf = Some(remainder);
                    }
                    proof {
                        if n == buf@.len() {
                            assert(held(new_buf) =~= buf@.subrange(n as int, buf@.len() as int));
                        }
                    }
                    self.buf = new_buf;
                    return n as isize;
                }
            },
            None => {},
        }
        0
    }
}

/// The line for the object holding `n`, in a fresh vector.
fn item_line_bytes(n: usize) -> (r: Vec<u8>)
    ensures
        r@ == item_line(n as nat),
{
    let prefix = line_prefix_bytes();
    let mut pb = Printbuf::new();
    pb.raw_mut().prt_bytes(prefix.as_slice());
    proof {
        lemma_decimal_len(n as nat);
    }
    pb.raw_mut().prt_u64(n as u64);
    pb.newline();
    let r = slice_to_vec(pb.as_slice());
    assert(r@ =~= item_line(n as nat));
    r
}

/// Serves one read: when the current line is used up, takes the next object
/// of the countdown and makes its line; then flushes the line as far as the
/// reader's buffer allows and moves `off` past what was copied.
pub fn tb_rs_read(state: &mut DebugfsState, writer: &mut UserSliceWriter, off: &mut usize) -> (r:
    isize)
    requires
        old(writer).wf(),
        old(writer).remaining() <= isize::MAX,
        *old(off) + old(writer).remaining() <= usize::MAX,
    ensures
        final(writer).wf(),
        final(writer).capacity() == old(writer).capacity(),
        final(writer).accessible() == old(writer).accessible(),
        ({
            let p = old(state).pending();
            let c = old(state).count();
            let q = if p.len() > 0 {
                p
            } else if c >= 2 {
                item_line((c - 1) as nat)
            } else {
                Seq::empty()
            };
            let c2 = if p.len() > 0 {
                c
            } else if c >= 1 {
                (c - 1) as nat
            } else {
                0
            };
            let len = old(writer).remaining();
            let n = if len < q.len() {
                len
            } else {
                q.len() as int
            };
            let fits = old(writer).written().len() + n <= old(writer).accessible();
            &&& final(state).count() == c2
            &&& q.len() == 0 ==> r == 0 && final(writer).written() == old(writer).written()
                && *final(off) == *old(off)
            &&& q.len() > 0 && n == 0 ==> r == 0 && final(state).pending() == q
                && final(writer).written() == old(writer).written() && *final(off) == *old(off)
            &&& q.len() > 0 && n > 0 && fits ==> {
                &&& r == n
                &&& final(writer).written() == old(writer).written() + q.subrange(0, n)
                &&& final(state).pending() == q.subrange(n, q.len() as int)
                &&& *final(off) == *old(off) + n
            }
            &&& q.len() > 0 && n > 0 && !fits ==> {
                &&& r == (-EFAULT) as isize
                &&& final(writer).written() == old(writer).written()
                &&& final(state).pending() == q
                &&& *final(off) == *old(off)
            }
        }),
{
    let empty = match &state.buf {
        Some(b) => b.len() == 0,
        None => true,
    };
    if empty {
        let item = match state.data.next() {
            Some(i) => i,
            None => {
                return 0;
            },
        };
        state.buf = Some(item_line_bytes(item));
    }
    let len: usize = writer.len();
    let written = state.flush_buf(len, writer);
    if written > 0 {
        *off = *off + written as usize;
    }
    written
}

/// Opens a state counting down from `TB_NUM_OBJECTS`, with no line yet.
pub fn tb_rs_open() -> (r: DebugfsState)
    ensures
        r.pending() == Seq::<u8>::empty(),
        r.count() == TB_NUM_OBJECTS,
{
    DebugfsState { buf: None, data: MyCollection { num_objects: TB_NUM_OBJECTS } }
}

/// Ends a reading session.
pub fn tb_rs_release(state: DebugfsState) {
}

} // verus!
