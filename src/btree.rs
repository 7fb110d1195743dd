//! Transactions and cursors over the btrees of a filesystem, and the laws of
//! a forward traversal.

use crate::bkey::{Bkey, BkeySC, BKEY_VAL_MAX_BYTES};
use crate::bpos::{
    Bpos, bpos_le, bpos_lt, bpos_successor_spec, pos_max, spos_max, spos_max_pos,
    lemma_successor,
};
use crate::error::{
    BchErrcode, BCH_ERR_TRANSACTION_RESTART, errcode_to_ptr, errptr_decode, errptr_to_result_c,
};
use crate::fs::{Fs, bch_fs, keys_of, strictly_sorted};
use vstd::prelude::*;

verus! {

/// Traversal hint: read ahead.
pub const BTREE_ITER_PREFETCH: u16 = 4;

/// Traversal flag: visit every snapshot version of a key, not only the first.
pub const BTREE_ITER_ALL_SNAPSHOTS: u16 = 1024;

/// Index of the first position of `ks` at or after `p`, or `ks.len()` when
/// there is none (`ks` strictly increasing).
pub open spec fn lower_bound(ks: Seq<Bpos>, p: Bpos) -> int
    decreases ks.len(),
{
    if ks.len() == 0 {
        0
    } else if bpos_lt(ks.last(), p) {
        ks.len() as int
    } else {
        lower_bound(ks.drop_last(), p)
    }
}

/// What `lower_bound` is: every position before it is below `p`, the one at
/// it is not.
pub proof fn lemma_lower_bound(ks: Seq<Bpos>, p: Bpos)
    requires
        strictly_sorted(ks),
    ensures
        0 <= lower_bound(ks, p) <= ks.len(),
        forall|j: int| 0 <= j < lower_bound(ks, p) ==> bpos_lt(#[trigger] ks[j], p),
        lower_bound(ks, p) < ks.len() ==> bpos_le(p, ks[lower_bound(ks, p)]),
    decreases ks.len(),
{
    if ks.len() > 0 {
        let d = ks.drop_last();
        assert(strictly_sorted(d)) by {
            assert forall|i: int, j: int| 0 <= i < j < d.len() implies bpos_lt(
                #[trigger] d[i],
                #[trigger] d[j],
            ) by {
                assert(d[i] == ks[i] && d[j] == ks[j]);
            }
        }
        if bpos_lt(ks.last(), p) {
            assert forall|j: int| 0 <= j < ks.len() implies bpos_lt(#[trigger] ks[j], p) by {
                if j < ks.len() - 1 {
                    assert(bpos_lt(ks[j], ks[ks.len() - 1]));
                }
            }
        } else {
            lemma_lower_bound(d, p);
            assert forall|j: int| 0 <= j < lower_bound(ks, p) implies bpos_lt(#[trigger] ks[j], p) by {
                assert(d[j] == ks[j]);
            }
        }
    }
}

/// `lower_bound` is the only index with its two properties.
pub proof fn lemma_lower_bound_unique(ks: Seq<Bpos>, p: Bpos, i: int)
    requires
        strictly_sorted(ks),
        0 <= i <= ks.len(),
        forall|j: int| 0 <= j < i ==> bpos_lt(#[trigger] ks[j], p),
        i < ks.len() ==> bpos_le(p, ks[i]),
    ensures
        lower_bound(ks, p) == i,
{
    lemma_lower_bound(ks, p);
    let lb = lower_bound(ks, p);
    if lb < i {
        assert(bpos_lt(ks[lb], p));
    } else if lb > i {
        assert(bpos_lt(ks[i], p));
    }
}

/// The position right after `p` that is not another snapshot version of it.
pub open spec fn bpos_nosnap_successor_spec(p: Bpos) -> Bpos {
    if p.offset < u64::MAX {
        Bpos { inode: p.inode, offset: (p.offset + 1) as u64, snapshot: 0 }
    } else {
        Bpos { inode: (p.inode + 1) as u64, offset: 0, snapshot: 0 }
    }
}

/// Where a cursor with traversal flags `flags` goes after the entry at `p`.
pub open spec fn advance_pos(p: Bpos, flags: u16) -> Bpos {
    if flags & BTREE_ITER_ALL_SNAPSHOTS != 0 {
        bpos_successor_spec(p)
    } else {
        bpos_nosnap_successor_spec(p)
    }
}

/// The positions that repeated peeks and advances deliver, at most `n` of
/// them, from position `p` of a cursor that visits every snapshot version.
pub open spec fn walk(ks: Seq<Bpos>, p: Bpos, n: nat) -> Seq<Bpos>
    decreases n,
{
    if n == 0 || lower_bound(ks, p) >= ks.len() {
        Seq::empty()
    } else {
        seq![ks[lower_bound(ks, p)]] + walk(ks, bpos_successor_spec(ks[lower_bound(ks, p)]), (n - 1) as nat)
    }
}

/// After the entry at index `i`, the next peek finds index `i + 1`.
pub proof fn lemma_lower_bound_after(ks: Seq<Bpos>, i: int)
    requires
        strictly_sorted(ks),
        0 <= i < ks.len(),
        ks[i] != spos_max(),
    ensures
        lower_bound(ks, bpos_successor_spec(ks[i])) == i + 1,
{
    let s = bpos_successor_spec(ks[i]);
    assert forall|j: int| 0 <= j < i + 1 implies bpos_lt(#[trigger] ks[j], s) by {
        lemma_successor(ks[i], ks[j]);
        if j < i {
            assert(bpos_lt(ks[j], ks[i]));
        }
    }
    if i + 1 < ks.len() {
        lemma_successor(ks[i], ks[i + 1]);
    }
    lemma_lower_bound_unique(ks, s, i + 1);
}

/// A traversal from `p` delivers exactly the positions at or after `p`, in
/// the order of the index, each once: no position is skipped or repeated.
pub proof fn lemma_walk_exact(ks: Seq<Bpos>, p: Bpos, n: nat)
    requires
        strictly_sorted(ks),
        forall|i: int| 0 <= i < ks.len() ==> #[trigger] ks[i] != spos_max(),
    ensures
        walk(ks, p, n) == ks.subrange(
            lower_bound(ks, p),
            if lower_bound(ks, p) + n <= ks.len() {
                lower_bound(ks, p) + n
            } else {
                ks.len() as int
            },
        ),
    decreases n,
{
    lemma_lower_bound(ks, p);
    let lb = lower_bound(ks, p);
    if n == 0 || lb >= ks.len() {
        assert(walk(ks, p, n) =~= Seq::<Bpos>::empty());
    } else {
        let s = bpos_successor_spec(ks[lb]);
        lemma_lower_bound_after(ks, lb);
        lemma_walk_exact(ks, s, (n - 1) as nat);
        let hi = if lb + n <= ks.len() {
            lb + n
        } else {
            ks.len() as int
        };
        assert(walk(ks, p, n) =~= ks.subrange(lb, hi));
    }
}

/// The positions a traversal delivers strictly increase.
pub proof fn lemma_walk_increasing(ks: Seq<Bpos>, p: Bpos, n: nat)
    requires
        strictly_sorted(ks),
        forall|i: int| 0 <= i < ks.len() ==> #[trigger] ks[i] != spos_max(),
    ensures
        strictly_sorted(walk(ks, p, n)),
{
    lemma_walk_exact(ks, p, n);
    lemma_lower_bound(ks, p);
    let w = walk(ks, p, n);
    let lb = lower_bound(ks, p);
    assert forall|i: int, j: int| 0 <= i < j < w.len() implies bpos_lt(
        #[trigger] w[i],
        #[trigger] w[j],
    ) by {
        assert(w[i] == ks[lb + i] && w[j] == ks[lb + j]);
    }
}

/// With any traversal flags, the position after an advance lies past the
/// entry just delivered, and the next peek finds a later entry: the entries
/// a cursor delivers strictly increase.
pub proof fn lemma_step_increases(ks: Seq<Bpos>, p: Bpos, flags: u16)
    requires
        strictly_sorted(ks),
        forall|i: int| 0 <= i < ks.len() ==> bpos_lt(#[trigger] ks[i], pos_max()),
        lower_bound(ks, p) < ks.len(),
    ensures
        bpos_le(p, ks[lower_bound(ks, p)]),
        bpos_lt(ks[lower_bound(ks, p)], advance_pos(ks[lower_bound(ks, p)], flags)),
        lower_bound(ks, advance_pos(ks[lower_bound(ks, p)], flags)) > lower_bound(ks, p),
{
    lemma_lower_bound(ks, p);
    let i = lower_bound(ks, p);
    let q = advance_pos(ks[i], flags);
    lemma_successor(ks[i], ks[i]);
    lemma_lower_bound(ks, q);
    let j = lower_bound(ks, q);
    if j <= i && j < ks.len() {
        if j < i {
            assert(bpos_lt(ks[j], ks[i]));
        }
    }
}

/// Engine state of one cursor.
#[allow(non_camel_case_types)]
#[derive(Clone, Copy, Debug, PartialEq, Eq, Structural)]
pub struct btree_iter {
    pub btree_id: u32,
    pub flags: u16,
    /// Where the next peek starts.
    pub pos: Bpos,
    /// Position of the entry last peeked.
    pub k_pos: Bpos,
    /// An entry was peeked since the cursor last moved.
    pub peeked: bool,
    /// A conflicting update forces the transaction to restart before the
    /// next traversal.
    pub restart_pending: bool,
}

/// A cursor over the interior nodes of a btree.
pub struct BtreeNodeIter<'t> {
    _raw: btree_iter,
    trans: core::marker::PhantomData<&'t BtreeTrans<'t>>,
}

/// A unit of work against the btrees of a filesystem.
pub struct BtreeTrans<'f> {
    fs: &'f bch_fs,
}

impl<'f> BtreeTrans<'f> {
    #[verifier::type_invariant]
    spec fn inv(&self) -> bool {
        self.fs.wf()
    }

    /// The filesystem state the transaction works on.
    pub closed spec fn fs(&self) -> bch_fs {
        *self.fs
    }

    /// Begins a transaction on `fs`.
    pub fn new(fs: &'f Fs) -> (r: BtreeTrans<'f>)
        ensures
            r.fs() == fs.inner(),
            r.fs().wf(),
    {
        BtreeTrans { fs: fs.raw() }
    }

    /// Drops the locks that the transaction's cursors hold, before a slow
    /// operation. Cursors keep their positions; the index here takes no locks.
    pub fn unlock(&self) {
    }
}

/// Whether reading the entry at `p` in btree `id` fails.
pub open spec fn read_fails(fs: bch_fs, id: int, p: Bpos) -> bool {
    fs.read_error matches Some(re) && re.btree as int == id && re.pos == p
}

/// What one peek bounded by `end` does to a cursor going from `before` to
/// `after`, with result `r`: it finds the first entry at or after the
/// cursor's position, when that entry is at or before `end`, and moves the
/// cursor onto it; a damaged entry is reported as its error and moves
/// nothing. A conflict left pending in `before` is cleared and changes
/// nothing else.
pub open spec fn peek_spec<'t, 'i>(
    before: BtreeIter<'t>,
    after: BtreeIter<'t>,
    end: Bpos,
    r: Result<Option<BkeySC<'i>>, BchErrcode>,
) -> bool {
    let i = before.next_index();
    let es = before.entries();
    let ks = before.keys();
    let found = i < ks.len() && bpos_le(ks[i], end);
    let st = btree_iter { restart_pending: false, ..before.state() };
    &&& after.wf()
    &&& after.fs() == before.fs()
    &&& match r {
        Ok(None) => !found && after.state() == st,
        Ok(Some(k)) => {
            &&& found
            &&& !read_fails(before.fs(), before.state().btree_id as int, ks[i])
            &&& *k.k == es[i].k
            &&& k.v@ == es[i].v@
            &&& k.v@.len() <= BKEY_VAL_MAX_BYTES
            &&& after.state() == (btree_iter { pos: ks[i], k_pos: ks[i], peeked: true, ..st })
        },
        Err(e) => {
            &&& found
            &&& read_fails(before.fs(), before.state().btree_id as int, ks[i])
            &&& e == before.fs().read_error->Some_0.code
            &&& after.state() == st
        },
    }
}

/// A cursor over one btree, bound to a transaction.
pub struct BtreeIter<'t> {
    raw: btree_iter,
    trans: &'t BtreeTrans<'t>,
}

impl<'t> BtreeIter<'t> {
    /// Engine state of the cursor.
    pub closed spec fn state(&self) -> btree_iter {
        self.raw
    }

    /// The filesystem state the cursor walks.
    pub closed spec fn fs(&self) -> bch_fs {
        self.trans.fs()
    }

    /// The entries of the cursor's btree.
    pub open spec fn entries(&self) -> Seq<Bkey> {
        self.fs().btree(self.state().btree_id as int)
    }

    /// Positions of the entries of the cursor's btree.
    pub open spec fn keys(&self) -> Seq<Bpos> {
        keys_of(self.entries())
    }

    pub open spec fn wf(&self) -> bool {
        &&& self.fs().wf()
        &&& (self.state().btree_id as int) < self.fs().btrees@.len()
        &&& self.state().peeked ==> bpos_lt(self.state().k_pos, pos_max())
    }

    /// Index of the entry that the next peek finds, if it is in range.
    pub open spec fn next_index(&self) -> int {
        lower_bound(self.keys(), self.state().pos)
    }

    /// A cursor on btree `btree` of the transaction's filesystem, at `pos`.
    pub fn new(trans: &'t BtreeTrans<'t>, btree: u32, pos: Bpos, flags: u16) -> (r: BtreeIter<'t>)
        requires
            (btree as int) < trans.fs().btrees@.len(),
        ensures
            r.wf(),
            r.fs() == trans.fs(),
            r.state() == (btree_iter {
                btree_id: btree,
                flags,
                pos,
                k_pos: pos,
                peeked: false,
                restart_pending: false,
            }),
    {
        proof {
            use_type_invariant(trans);
        }
        BtreeIter {
            raw: btree_iter {
                btree_id: btree,
                flags,
                pos,
                k_pos: pos,
                peeked: false,
                restart_pending: false,
            },
            trans,
        }
    }

    /// Index of the first entry at or after `p` in table `es`.
    fn find(es: &Vec<Bkey>, p: Bpos) -> (r: usize)
        requires
            strictly_sorted(keys_of(es@)),
        ensures
            r as int == lower_bound(keys_of(es@), p),
    {
        let ghost ks = keys_of(es@);
        let mut i: usize = 0;
        while i < es.len() && es[i].k.p.compare_lt(&p)
            invariant
                i <= es@.len(),
                ks == keys_of(es@),
                forall|j: int| 0 <= j < i ==> bpos_lt(#[trigger] ks[j], p),
            decreases es@.len() - i,
        {
            i = i + 1;
        }
        proof {
            if i < es@.len() {
                assert(ks[i as int] == es@[i as int].k.p);
            }
            lemma_lower_bound_unique(ks, p, i as int);
        }
        i
    }

    /// One traversal step of the engine, its result encoded as a pointer:
    /// zero when nothing is in range, one more than the entry's index when
    /// one is found, an error pointer otherwise.
    fn engine_peek(&mut self, end: Bpos) -> (r: usize)
        requires
            old(self).wf(),
        ensures
            final(self).wf(),
            final(self).fs() == old(self).fs(),
            ({
                let i = old(self).next_index();
                let ks = old(self).keys();
                let found = i < ks.len() && bpos_le(ks[i], end);
                if old(self).state().restart_pending {
                    &&& errptr_decode(r) == Err::<usize, BchErrcode>(
                        BchErrcode { code: BCH_ERR_TRANSACTION_RESTART },
                    )
                    &&& final(self).state() == old(self).state()
                } else if !found {
                    &&& r == 0
                    &&& final(self).state() == old(self).state()
                } else if read_fails(old(self).fs(), old(self).state().btree_id as int, ks[i]) {
                    &&& errptr_decode(r) == Err::<usize, BchErrcode>(
                        old(self).fs().read_error->Some_0.code,
                    )
                    &&& final(self).state() == old(self).state()
                } else {
                    &&& r == i + 1
                    &&& errptr_decode(r) == Ok::<usize, BchErrcode>(r)
                    &&& final(self).state() == (btree_iter {
                        pos: ks[i],
                        k_pos: ks[i],
                        peeked: true,
                        ..old(self).state()
                    })
                }
            }),
    {
        if self.raw.restart_pending {
            return errcode_to_ptr(BchErrcode { code: BCH_ERR_TRANSACTION_RESTART });
        }
        let fs: &bch_fs = self.trans.fs;
        let id: usize = self.raw.btree_id as usize;
        let es: &Vec<Bkey> = &fs.btrees[id];
        proof {
            assert(bch_fs::table_wf(fs.btree(id as int)));
        }
        let i = Self::find(es, self.raw.pos);
        if i < es.len() && !end.compare_lt(&es[i].k.p) {
            let p = es[i].k.p;
            assert(p == self.keys()[i as int]);
            match fs.read_error {
                Some(re) => {
                    if re.btree == self.raw.btree_id && re.pos == p {
                        return errcode_to_ptr(re.code);
                    }
                },
                None => {},
            }
            assert(es@[i as int].k.p == p);
            self.raw.pos = p;
            self.raw.k_pos = p;
            self.raw.peeked = true;
            i + 1
        } else {
            0
        }
    }

    /// Starts the transaction over after a conflict; positions are kept.
    fn trans_begin(&mut self)
        requires
            old(self).wf(),
        ensures
            final(self).wf(),
            final(self).fs() == old(self).fs(),
            final(self).state() == (btree_iter { restart_pending: false, ..old(self).state() }),
    {
        self.raw.restart_pending = false;
    }

    /// A traversal step that restarts the transaction on a conflict.
    fn peek_retrying(&mut self, end: Bpos) -> (r: usize)
        requires
            old(self).wf(),
        ensures
            final(self).wf(),
            final(self).fs() == old(self).fs(),
            ({
                let i = old(self).next_index();
                let ks = old(self).keys();
                let found = i < ks.len() && bpos_le(ks[i], end);
                let st = btree_iter { restart_pending: false, ..old(self).state() };
                if !found {
                    &&& r == 0
                    &&& final(self).state() == st
                } else if read_fails(old(self).fs(), old(self).state().btree_id as int, ks[i]) {
                    &&& errptr_decode(r) == Err::<usize, BchErrcode>(
                        old(self).fs().read_error->Some_0.code,
                    )
                    &&& final(self).state() == st
                } else {
                    &&& r == i + 1
                    &&& errptr_decode(r) == Ok::<usize, BchErrcode>(r)
                    &&& final(self).state() == (btree_iter {
                        pos: ks[i],
                        k_pos: ks[i],
                        peeked: true,
                        ..st
                    })
                }
            }),
    {
        let k = self.engine_peek(end);
        match errptr_to_result_c(k) {
            Err(e) => {
                if e.is_restart() {
                    self.trans_begin();
                    return self.engine_peek(end);
                }
            },
            Ok(_) => {},
        }
        proof {
            if !old(self).state().restart_pending {
                assert(old(self).state() == (btree_iter { restart_pending: false, ..old(self).state() }));
            }
        }
        k
    }

    /// The view of the entry at engine result `k`.
    fn view_of<'i>(&'i self, k: usize) -> (r: BkeySC<'i>)
        requires
            self.wf(),
            1 <= k <= self.entries().len(),
        ensures
            *r.k == self.entries()[k - 1].k,
            r.v@ == self.entries()[k - 1].v@,
            r.v@.len() <= BKEY_VAL_MAX_BYTES,
    {
        let trans: &'t BtreeTrans<'t> = self.trans;
        let fs: &'t bch_fs = trans.fs;
        let e: &Bkey = &fs.btrees[self.raw.btree_id as usize][k - 1];
        proof {
            assert(bch_fs::table_wf(fs.btree(self.raw.btree_id as int)));
        }
        BkeySC { k: &e.k, v: e.v.as_slice() }
    }

    /// The first entry at or after the cursor's position and at or before
    /// `end`. A conflict is retried and never reported; the damaged entry of
    /// the filesystem, when it is the one found, is reported as its error.
    pub fn peek_upto<'i>(&'i mut self, end: Bpos) -> (r: Result<Option<BkeySC<'i>>, BchErrcode>)
        requires
            old(self).wf(),
        ensures
            peek_spec(*old(self), *final(self), end, r),
    {
        proof {
            assert(bch_fs::table_wf(self.fs().btree(self.state().btree_id as int)));
            lemma_lower_bound(self.keys(), self.state().pos);
        }
        let k = self.peek_retrying(end);
        match errptr_to_result_c(k) {
            Err(e) => Err(e),
            Ok(a) => {
                if a == 0 {
                    Ok(None)
                } else {
                    proof {
                        assert(self.entries().len() == self.keys().len());
                    }
                    Ok(Some(self.view_of(a)))
                }
            },
        }
    }

    /// `peek_upto` with the largest position as the bound.
    pub fn peek<'i>(&'i mut self) -> (r: Result<Option<BkeySC<'i>>, BchErrcode>)
        requires
            old(self).wf(),
        ensures
            peek_spec(*old(self), *final(self), spos_max(), r),
    {
        let end = spos_max_pos();
        self.peek_upto(end)
    }

    /// Like `peek`, but a conflict may restart the whole transaction before
    /// the step is tried again. Whether a conflict happened does not change
    /// what is returned: the first entry at or after the cursor's position.
    /// The index here holds no locks to keep, so a restart and a retry in
    /// place both come down to dropping the conflict.
    pub fn peek_and_restart<'i>(&'i mut self) -> (r: Result<Option<BkeySC<'i>>, BchErrcode>)
        requires
            old(self).wf(),
        ensures
            peek_spec(*old(self), *final(self), spos_max(), r),
    {
        let end = spos_max_pos();
        self.peek_upto(end)
    }

    /// Moves the cursor strictly past the entry last peeked.
    pub fn advance(&mut self)
        requires
            old(self).wf(),
            old(self).state().peeked,
        ensures
            final(self).wf(),
            final(self).fs() == old(self).fs(),
            final(self).state() == (btree_iter {
                pos: advance_pos(old(self).state().k_pos, old(self).state().flags),
                peeked: false,
                ..old(self).state()
            }),
            bpos_lt(old(self).state().k_pos, final(self).state().pos),
    {
        let p = self.raw.k_pos;
        proof {
            lemma_successor(p, p);
        }
        if self.raw.flags & BTREE_ITER_ALL_SNAPSHOTS != 0 {
            self.raw.pos = p.successor();
        } else if p.offset < u64::MAX {
            self.raw.pos = Bpos { inode: p.inode, offset: p.offset + 1, snapshot: 0 };
        } else {
            self.raw.pos = Bpos { inode: p.inode + 1, offset: 0, snapshot: 0 };
        }
        self.raw.peeked = false;
    }

    /// Where the next peek starts.
    pub fn cur_pos(&self) -> (r: Bpos)
        ensures
            r == self.state().pos,
    {
        self.raw.pos
    }

    /// Makes the next traversal step meet a conflict, as an update from
    /// another transaction would.
    pub fn inject_conflict(&mut self)
        requires
            old(self).wf(),
        ensures
            final(self).wf(),
            final(self).fs() == old(self).fs(),
            final(self).state() == (btree_iter { restart_pending: true, ..old(self).state() }),
    {
        self.raw.restart_pending = true;
    }
}

} // verus!
