//! Text dumps of btrees: per btree an object that readers open, and the
//! producer that renders one entry per line, resuming where the last step
//! stopped with a fresh transaction each time.

use crate::bkey::{Bkey, bkey_text};
use crate::bpos::{Bpos, bpos_le, bpos_min, bpos_successor_spec, pos_max, pos_min, spos_max};
use crate::btree::{
    BTREE_ITER_ALL_SNAPSHOTS, BTREE_ITER_PREFETCH, BtreeIter, BtreeTrans, lower_bound,
    lemma_lower_bound, lemma_lower_bound_after, lemma_lower_bound_unique, lemma_walk_exact,
    read_fails, walk,
};
use crate::error::{Error, errno_of};
use crate::fs::{Fs, bch_fs, keys_of};
use crate::printbuf::Printbuf;
use crate::reader::{BufRead, IntoBufReader};
use vstd::prelude::*;

verus! {

/// The line for one entry: its text form and a line terminator.
pub open spec fn entry_line(e: Bkey) -> Seq<u8> {
    bkey_text(e.k, e.v@).push(10u8)
}

/// The lines for the entries of `es` from index `lo` up to, not including, `hi`.
pub open spec fn lines(es: Seq<Bkey>, lo: int, hi: int) -> Seq<u8>
    decreases hi - lo,
{
    if lo >= hi {
        Seq::empty()
    } else {
        entry_line(es[lo]) + lines(es, lo + 1, hi)
    }
}

/// Index of the damaged entry in btree `id`, or the number of entries when
/// none of them is damaged.
pub open spec fn damaged_index(fs: bch_fs, id: int) -> int {
    let ks = keys_of(fs.btree(id));
    match fs.read_error {
        Some(re) => {
            let b = lower_bound(ks, re.pos);
            if re.btree as int == id && b < ks.len() && ks[b] == re.pos {
                b
            } else {
                ks.len() as int
            }
        },
        None => ks.len() as int,
    }
}

/// Index at which a dump of btree `id` from index `lo` stops: the damaged
/// entry if it comes at or after `lo`, else the end of the btree.
pub open spec fn stop_index(fs: bch_fs, id: int, lo: int) -> int {
    if damaged_index(fs, id) >= lo {
        damaged_index(fs, id)
    } else {
        fs.btree(id).len() as int
    }
}

/// The text of a dump of btree `id` from position `p`: one line per entry at
/// or after `p`, in order, up to the damaged entry if there is one.
pub open spec fn btree_text(fs: bch_fs, id: int, p: Bpos) -> Seq<u8> {
    let es = fs.btree(id);
    let lo = lower_bound(keys_of(es), p);
    lines(es, lo, stop_index(fs, id, lo))
}

/// How a dump of btree `id` from position `p` ends: with the error of the
/// damaged entry if the dump reaches it, else cleanly.
pub open spec fn btree_end(fs: bch_fs, id: int, p: Bpos) -> Option<Error> {
    let lo = lower_bound(keys_of(fs.btree(id)), p);
    if stop_index(fs, id, lo) < fs.btree(id).len() {
        Some(Error { errno: errno_of(fs.read_error->Some_0.code) })
    } else {
        None
    }
}

/// A dump from `p` renders, in order and once each, exactly the entries at
/// the positions that a conflict-free traversal from `p` delivers, up to the
/// damaged entry: nothing is skipped and nothing repeats.
pub proof fn lemma_dump_is_traversal(fs: bch_fs, id: int, p: Bpos)
    requires
        fs.wf(),
        0 <= id < fs.btrees@.len(),
    ensures
        ({
            let es = fs.btree(id);
            let ks = keys_of(es);
            let lo = lower_bound(ks, p);
            let hi = stop_index(fs, id, lo);
            &&& 0 <= lo <= hi <= es.len()
            &&& btree_text(fs, id, p) == lines(es, lo, hi)
            &&& keys_of(es.subrange(lo, hi)) == walk(ks, p, (hi - lo) as nat)
        }),
{
    let es = fs.btree(id);
    let ks = keys_of(es);
    assert(bch_fs::table_wf(es));
    lemma_lower_bound(ks, p);
    let lo = lower_bound(ks, p);
    let hi = stop_index(fs, id, lo);
    match fs.read_error {
        Some(re) => {
            lemma_lower_bound(ks, re.pos);
        },
        None => {},
    }
    assert forall|i: int| 0 <= i < ks.len() implies #[trigger] ks[i] != spos_max() by {
        assert(crate::bpos::bpos_lt(es[i].k.p, pos_max()));
    }
    lemma_walk_exact(ks, p, (hi - lo) as nat);
    assert(keys_of(es.subrange(lo, hi)) =~= ks.subrange(lo, hi));
}

/// One btree of a filesystem, as the object behind its dump file.
#[derive(Clone, Copy)]
pub struct BtreeDebug<'f> {
    fs: &'f Fs,
    id: u32,
}

impl<'f> BtreeDebug<'f> {
    #[verifier::type_invariant]
    spec fn inv(&self) -> bool {
        &&& self.fs.inner().wf()
        &&& (self.id as int) < self.fs.inner().btrees@.len()
    }

    /// The filesystem state.
    pub closed spec fn fs_state(&self) -> bch_fs {
        self.fs.inner()
    }

    /// The btree's identifier.
    pub closed spec fn id(&self) -> u32 {
        self.id
    }

    /// The object for btree `id` of `fs`, if `fs` has such a btree.
    pub fn new(fs: &'f Fs, id: u32) -> (r: Option<BtreeDebug<'f>>)
        ensures
            r is Some <==> (id as int) < fs.inner().btrees@.len(),
            r matches Some(d) ==> d.fs_state() == fs.inner() && d.id() == id,
    {
        let n = fs.nr_btrees();
        if (id as usize) < n {
            Some(BtreeDebug { fs, id })
        } else {
            None
        }
    }
}

/// The producer of a btree dump for one reader.
pub struct BchBtreeReader<'f> {
    btree: BtreeDebug<'f>,
    buf: Printbuf,
    /// How much of `buf` was consumed.
    buf_pos: u32,
    /// Where the next traversal step starts.
    btree_pos: Bpos,
}

impl<'f> BchBtreeReader<'f> {
    /// The filesystem state the dump reads.
    pub closed spec fn fs_state(&self) -> bch_fs {
        self.btree.fs.inner()
    }

    /// The btree dumped.
    pub closed spec fn btree_id(&self) -> int {
        self.btree.id as int
    }

    /// Where the next traversal step starts.
    pub closed spec fn resume_pos(&self) -> Bpos {
        self.btree_pos
    }

    /// What the producer still delivers: its pending bytes, then the dump
    /// from its resume position, ending as that dump ends.
    pub proof fn lemma_stream(&self)
        requires
            self.inv(),
        ensures
            self.rest() == self.pending() + btree_text(
                self.fs_state(),
                self.btree_id(),
                self.resume_pos(),
            ),
            self.end() == btree_end(self.fs_state(), self.btree_id(), self.resume_pos()),
            self.fs_state().wf(),
            0 <= self.btree_id() < self.fs_state().btrees@.len(),
    {
    }
}

/// Lines up to the damaged entry do not depend on where the dump starts.
proof fn lemma_stop_after(fs: bch_fs, id: int, i: int)
    requires
        fs.wf(),
        0 <= id < fs.btrees@.len(),
        0 <= i < fs.btree(id).len(),
        !read_fails(fs, id, keys_of(fs.btree(id))[i]),
    ensures
        stop_index(fs, id, i + 1) == stop_index(fs, id, i),
        stop_index(fs, id, i) >= i + 1,
        stop_index(fs, id, i) <= fs.btree(id).len(),
{
    let ks = keys_of(fs.btree(id));
    assert(bch_fs::table_wf(fs.btree(id)));
    match fs.read_error {
        Some(re) => {
            lemma_lower_bound(ks, re.pos);
            if re.btree as int == id && lower_bound(ks, re.pos) == i {
                lemma_lower_bound_unique(ks, ks[i], i);
            }
        },
        None => {},
    }
}

/// A failed read of the entry at index `i` is the damaged entry.
proof fn lemma_damaged_at(fs: bch_fs, id: int, i: int)
    requires
        fs.wf(),
        0 <= id < fs.btrees@.len(),
        0 <= i < fs.btree(id).len(),
        read_fails(fs, id, keys_of(fs.btree(id))[i]),
    ensures
        damaged_index(fs, id) == i,
        stop_index(fs, id, i) == i,
{
    let ks = keys_of(fs.btree(id));
    assert(bch_fs::table_wf(fs.btree(id)));
    assert forall|j: int| 0 <= j < i implies crate::bpos::bpos_lt(#[trigger] ks[j], ks[i]) by {}
    lemma_lower_bound_unique(ks, ks[i], i);
}

impl<'f> BufRead for BchBtreeReader<'f> {
    closed spec fn rest(&self) -> Seq<u8> {
        self.pending() + btree_text(self.fs_state(), self.btree_id(), self.btree_pos)
    }

    closed spec fn end(&self) -> Option<Error> {
        btree_end(self.fs_state(), self.btree_id(), self.btree_pos)
    }

    closed spec fn pending(&self) -> Seq<u8> {
        self.buf@.subrange(self.buf_pos as int, self.buf@.len() as int)
    }

    closed spec fn inv(&self) -> bool {
        &&& self.fs_state().wf()
        &&& 0 <= self.btree_id() < self.fs_state().btrees@.len()
        &&& self.buf.wf()
        &&& self.buf_pos <= self.buf@.len()
    }

    proof fn lemma_pending_prefix(&self) {
        assert(self.pending() =~= self.rest().subrange(0, self.pending().len() as int));
    }

    fn fill_buf(&mut self) -> (r: Result<&[u8], Error>)
        ensures
            final(self).fs_state() == old(self).fs_state(),
            final(self).btree_id() == old(self).btree_id(),
            bpos_le(old(self).resume_pos(), final(self).resume_pos()),
            old(self).pending().len() == 0 ==> {
                let fs = old(self).fs_state();
                let id = old(self).btree_id();
                let es = fs.btree(id);
                let ks = keys_of(es);
                let i = lower_bound(ks, old(self).resume_pos());
                if i >= ks.len() {
                    &&& r is Ok
                    &&& r->Ok_0@ == Seq::<u8>::empty()
                    &&& final(self).resume_pos() == old(self).resume_pos()
                    &&& final(self).pending() == Seq::<u8>::empty()
                } else if read_fails(fs, id, ks[i]) {
                    &&& r == Err::<&[u8], Error>(
                        Error { errno: errno_of(fs.read_error->Some_0.code) },
                    )
                    &&& final(self).resume_pos() == old(self).resume_pos()
                    &&& final(self).pending() == Seq::<u8>::empty()
                } else {
                    &&& r is Ok
                    &&& r->Ok_0@ == entry_line(es[i])
                    &&& final(self).pending() == entry_line(es[i])
                    &&& final(self).resume_pos() == bpos_successor_spec(ks[i])
                }
            },
    {
        if self.buf_pos >= self.buf.len() {
            let ghost fs = self.fs_state();
            let ghost id = self.btree_id();
            let ghost es = fs.btree(id);
            let ghost ks = keys_of(es);
            let trans = BtreeTrans::new(self.btree.fs);
            let flags: u16 = BTREE_ITER_PREFETCH | BTREE_ITER_ALL_SNAPSHOTS;
            assert(flags & BTREE_ITER_ALL_SNAPSHOTS != 0) by (bit_vector)
                requires
                    flags == 4u16 | 1024u16,
                    BTREE_ITER_ALL_SNAPSHOTS == 1024u16,
            ;
            let mut iter = BtreeIter::new(&trans, self.btree.id, self.btree_pos, flags);
            self.buf_pos = 0;
            self.buf.reset();
            proof {
                assert(bch_fs::table_wf(es));
                lemma_lower_bound(ks, self.btree_pos);
                assert(old(self).pending() =~= Seq::<u8>::empty());
            }
            let k = match iter.peek_and_restart() {
                Ok(k) => k,
                Err(e) => {
                    proof {
                        lemma_damaged_at(fs, id, lower_bound(ks, self.btree_pos));
                    }
                    return Err(Error::from_bch(e));
                },
            };
            let k = match k {
                Some(k) => k,
                None => {
                    let r = self.buf.as_slice();
                    assert(r@ =~= self.pending());
                    return Ok(r);
                },
            };
            let ghost i = lower_bound(ks, self.btree_pos);
            assert(*k.k == es[i].k && k.v@ == es[i].v@);
            k.write_to_printbuf(self.btree.fs, &mut self.buf);
            self.buf.newline();
            iter.advance();
            self.btree_pos = iter.cur_pos();
            proof {
                assert(ks[i] != spos_max());
                lemma_lower_bound_after(ks, i);
                lemma_stop_after(fs, id, i);
                assert(self.buf@ =~= entry_line(es[i]));
                assert(self.pending() =~= entry_line(es[i]));
                assert(lines(es, i, stop_index(fs, id, i)) =~= entry_line(es[i]) + lines(
                    es,
                    i + 1,
                    stop_index(fs, id, i + 1),
                ));
            }
        }
        let len: u32 = self.buf.len();
        let r = &self.buf.as_slice()[self.buf_pos as usize..len as usize];
        assert(r@ =~= self.pending());
        assert(r@ =~= self.rest().subrange(0, r@.len() as int));
        Ok(r)
    }

    fn consume(&mut self, amt: usize)
        ensures
            final(self).fs_state() == old(self).fs_state(),
            final(self).btree_id() == old(self).btree_id(),
            final(self).resume_pos() == old(self).resume_pos(),
    {
        let total: u32 = self.buf.len();
        assert(self.pending().len() == total - self.buf_pos);
        self.buf_pos = self.buf_pos + amt as u32;
        assert(self.pending() =~= old(self).pending().subrange(
            amt as int,
            old(self).pending().len() as int,
        ));
        assert(self.rest() =~= old(self).rest().subrange(amt as int, old(self).rest().len() as int));
    }
}

impl<'f> IntoBufReader for BtreeDebug<'f> {
    type BufReader = BchBtreeReader<'f>;

    open spec fn contents(&self) -> Seq<u8> {
        btree_text(self.fs_state(), self.id() as int, pos_min())
    }

    open spec fn outcome(&self) -> Option<Error> {
        btree_end(self.fs_state(), self.id() as int, pos_min())
    }

    fn into_bufreader(self) -> (r: BchBtreeReader<'f>)
        ensures
            r.pending() == Seq::<u8>::empty(),
            r.resume_pos() == pos_min(),
            r.fs_state() == self.fs_state(),
            r.btree_id() == self.id() as int,
    {
        proof {
            use_type_invariant(&self);
        }
        let r = BchBtreeReader { btree: self, buf: Printbuf::new(), buf_pos: 0, btree_pos: bpos_min() };
        assert(r.pending() =~= Seq::<u8>::empty());
        assert(r.rest() =~= self.contents());
        r
    }
}

/// The dump objects of a filesystem, one per btree, indexed by btree id.
pub struct BtreeDebugRegistry<'f> {
    entries: Vec<BtreeDebug<'f>>,
}

impl<'f> BtreeDebugRegistry<'f> {
    /// The entries, in btree id order.
    pub closed spec fn view_entries(&self) -> Seq<BtreeDebug<'f>> {
        self.entries@
    }

    /// The objects for every btree of `fs`, made at once.
    pub fn new(fs: &'f Fs) -> (r: BtreeDebugRegistry<'f>)
        ensures
            r.view_entries().len() == fs.inner().btrees@.len(),
            forall|i: int|
                0 <= i < r.view_entries().len() ==> (#[trigger] r.view_entries()[i]).id() == i
                    && r.view_entries()[i].fs_state() == fs.inner(),
    {
        let n = fs.nr_btrees();
        let mut entries: Vec<BtreeDebug<'f>> = Vec::new();
        let mut i: usize = 0;
        while i < n
            invariant
                i <= n,
                n == fs.inner().btrees@.len(),
                n <= u32::MAX,
                entries@.len() == i,
                forall|j: int|
                    0 <= j < i ==> (#[trigger] entries@[j]).id() == j && entries@[j].fs_state()
                        == fs.inner(),
            decreases n - i,
        {
            let d = BtreeDebug::new(fs, i as u32);
            match d {
                Some(d) => entries.push(d),
                None => {},
            }
            i = i + 1;
        }
        BtreeDebugRegistry { entries }
    }

    /// The object behind the dump file of btree `id`, if there is such a btree.
    pub fn setup_btree(&self, id: u32) -> (r: Option<BtreeDebug<'f>>)
        ensures
            r is Some <==> (id as int) < self.view_entries().len(),
            r matches Some(d) ==> d == self.view_entries()[id as int],
    {
        if (id as usize) < self.entries.len() {
            Some(self.entries[id as usize])
        } else {
            None
        }
    }
}

} // verus!
