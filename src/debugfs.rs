//! The read side of a file backed by a shared object: each open gets its own
//! producer, and each read call copies from it into the reader's buffer.

use crate::error::EFAULT;
use crate::reader::{BufRead, IntoBufReader};
use crate::uaccess::UserSliceWriter;
use vstd::prelude::*;

verus! {

/// Per-open state: the producer, and whether reading is over. `done` holds
/// zero once the stream has ended, or the error of a copy that failed after
/// part of a read had been delivered.
pub struct DebugfsReaderState<U> {
    pub bufreader: U,
    pub done: Option<isize>,
}

/// A file whose reads are served from a fresh producer per open of `T`.
pub struct DebugfsReader<T> {
    _type: core::marker::PhantomData<T>,
}

/// The smaller of two lengths.
pub open spec fn min_len(a: int, b: int) -> int {
    if a <= b {
        a
    } else {
        b
    }
}

impl<T: IntoBufReader + Copy> DebugfsReader<T> {
    /// Opens a reading session on `object`: a producer of its own, starting
    /// at the beginning of the object's stream.
    pub fn open(object: &T) -> (r: DebugfsReaderState<T::BufReader>)
        ensures
            r.done is None,
            r.bufreader.inv(),
            r.bufreader.rest() == object.contents(),
            r.bufreader.end() == object.outcome(),
    {
        let obj: T = *object;
        DebugfsReaderState { bufreader: obj.into_bufreader(), done: None }
    }

    /// Ends a reading session.
    pub fn release(state: DebugfsReaderState<T::BufReader>) {
    }

    /// Copies the next bytes of the session's stream into `writer`, as many
    /// as it has room for, and returns how many; zero when the stream has
    /// ended. An error of the stream is returned as its negated errno. A
    /// copy that faults is reported at once when nothing was delivered yet,
    /// and otherwise by the next call, this one returning what it delivered.
    pub fn read(state: &mut DebugfsReaderState<T::BufReader>, writer: &mut UserSliceWriter) -> (r:
        isize)
        requires
            old(state).bufreader.inv(),
            old(writer).wf(),
            old(writer).remaining() <= isize::MAX,
        ensures
            final(writer).wf(),
            final(writer).capacity() == old(writer).capacity(),
            final(writer).accessible() == old(writer).accessible(),
            final(state).bufreader.inv(),
            old(state).done is Some ==> {
                &&& r == old(state).done->Some_0
                &&& *final(state) == *old(state)
                &&& final(writer).written() == old(writer).written()
            },
            old(state).done is None ==> {
                let rest = old(state).bufreader.rest();
                let len = old(writer).remaining();
                let k = final(writer).written().len() - old(writer).written().len();
                let fault = old(writer).written().len() + min_len(len, rest.len() as int)
                    > old(writer).accessible();
                &&& 0 <= k <= min_len(len, rest.len() as int)
                &&& final(writer).written() == old(writer).written() + rest.subrange(0, k)
                &&& final(state).bufreader.rest() == rest.subrange(k, rest.len() as int)
                &&& final(state).bufreader.end() == old(state).bufreader.end()
                &&& r >= 0 ==> {
                    &&& r == k
                    &&& {
                        ||| k == len && final(state).done is None
                        ||| k < len && k == rest.len() && old(state).bufreader.end() is None
                            && final(state).done == Some(0isize)
                        ||| 0 < k < min_len(len, rest.len() as int) && fault && final(state).done
                            == Some((-EFAULT) as isize)
                    }
                }
                &&& r < 0 ==> {
                    &&& final(state).done is None
                    &&& {
                        ||| k == rest.len() && k < len && old(state).bufreader.end() is Some
                            && r == (-old(state).bufreader.end()->Some_0.errno) as isize
                        ||| k == 0 && fault && r == (-EFAULT) as isize
                    }
                }
            },
            r == 0 && old(writer).remaining() > 0 ==> final(state).done == Some(0isize),
    {
        match state.done {
            Some(ret) => {
                return ret;
            },
            None => {},
        }
        let len: usize = writer.len();
        let mut written: usize = 0;
        let ghost rest = state.bufreader.rest();
        let ghost w0 = writer.written();
        while written < len
            invariant_except_break
                state.done is None,
            invariant
                old(state).done is None,
                written <= len,
                len == old(writer).remaining(),
                len <= isize::MAX,
                written <= rest.len(),
                rest == old(state).bufreader.rest(),
                w0 == old(writer).written(),
                state.bufreader.inv(),
                state.bufreader.rest() == rest.subrange(written as int, rest.len() as int),
                state.bufreader.end() == old(state).bufreader.end(),
                writer.wf(),
                writer.capacity() == old(writer).capacity(),
                writer.accessible() == old(writer).accessible(),
                writer.written() == w0 + rest.subrange(0, written as int),
                writer.remaining() == len - written,
            ensures
                written == len && state.done is None || written < len && written == rest.len()
                    && old(state).bufreader.end() is None && state.done == Some(0isize) || 0
                    < written < min_len(len as int, rest.len() as int) && w0.len() + min_len(
                    len as int,
                    rest.len() as int,
                ) > old(writer).accessible() && state.done == Some((-EFAULT) as isize),
            decreases len - written,
        {
            let data = match state.bufreader.fill_buf() {
                Ok(s) => s,
                Err(e) => {
                    return -(e.errno as isize);
                },
            };
            if data.len() == 0 {
                state.done = Some(0);
                break ;
            }
            let n: usize = if data.len() < len - written {
                data.len()
            } else {
                len - written
            };
            let chunk = &data[0..n];
            assert(chunk@ == rest.subrange(written as int, written + n)) by {
                assert(chunk@ =~= data@.subrange(0, n as int));
            }
            match writer.write_slice(chunk) {
                Ok(_) => {},
                Err(e) => {
                    if written > 0 {
                        state.done = Some(-(e.errno as isize));
                        break ;
                    } else {
                        return -(e.errno as isize);
                    }
                },
            }
            state.bufreader.consume(n);
            assert(writer.written() =~= w0 + rest.subrange(0, written + n));
            assert(state.bufreader.rest() =~= rest.subrange(written + n, rest.len() as int));
            written = written + n;
        }
        written as isize
    }
}

} // verus!
