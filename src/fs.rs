//! A mounted filesystem as the btree code sees it: one sorted table of
//! entries per btree.

use crate::bkey::{Bkey, BKEY_VAL_MAX_BYTES};
use crate::bpos::{Bpos, bpos_lt, pos_max};
use crate::error::{BchErrcode, BCH_ERR_START};
use vstd::prelude::*;

verus! {

/// A read of the entry at `pos` in btree `btree` fails with `code`.
#[derive(Clone, Copy, Debug, PartialEq, Eq, Structural)]
pub struct ReadError {
    pub btree: u32,
    pub pos: Bpos,
    pub code: BchErrcode,
}

/// The state of a filesystem: its btrees, each a table of entries in
/// increasing position order, and a damaged entry, if any.
#[allow(non_camel_case_types)]
pub struct bch_fs {
    pub btrees: Vec<Vec<Bkey>>,
    pub read_error: Option<ReadError>,
}

/// Positions of a table of entries.
pub open spec fn keys_of(es: Seq<Bkey>) -> Seq<Bpos> {
    es.map_values(|e: Bkey| e.k.p)
}

/// Positions strictly increase along `ks`.
pub open spec fn strictly_sorted(ks: Seq<Bpos>) -> bool {
    forall|i: int, j: int| 0 <= i < j < ks.len() ==> bpos_lt(#[trigger] ks[i], #[trigger] ks[j])
}

impl bch_fs {
    /// Entries of btree `id`.
    pub open spec fn btree(&self, id: int) -> Seq<Bkey> {
        self.btrees@[id]@
    }

    /// Table `es` is well formed: positions strictly increase and stay below
    /// the largest position with a zero snapshot, values fit in a key, and
    /// the table is small enough to be addressed by an engine pointer.
    pub open spec fn table_wf(es: Seq<Bkey>) -> bool {
        &&& strictly_sorted(keys_of(es))
        &&& forall|i: int| 0 <= i < es.len() ==> bpos_lt(#[trigger] es[i].k.p, pos_max())
        &&& forall|i: int| 0 <= i < es.len() ==> (#[trigger] es[i].v@.len()) <= BKEY_VAL_MAX_BYTES
        &&& es.len() <= usize::MAX - 4096
    }

    pub open spec fn wf(&self) -> bool {
        &&& self.btrees@.len() <= u32::MAX
        &&& forall|id: int| 0 <= id < self.btrees@.len() ==> Self::table_wf(#[trigger] self.btree(id))
        &&& self.read_error matches Some(re) ==> 1 <= re.code.code < BCH_ERR_START
    }

    /// Whether `es` is a well-formed table.
    fn check_table(es: &Vec<Bkey>) -> (r: bool)
        ensures
            r == Self::table_wf(es@),
    {
        if es.len() > usize::MAX - 4096 {
            return false;
        }
        let mut i: usize = 0;
        while i < es.len()
            invariant
                i <= es@.len(),
                strictly_sorted(keys_of(es@.subrange(0, i as int))),
                forall|j: int| 0 <= j < i ==> bpos_lt(#[trigger] es@[j].k.p, pos_max()),
                forall|j: int| 0 <= j < i ==> (#[trigger] es@[j].v@.len()) <= BKEY_VAL_MAX_BYTES,
            decreases es@.len() - i,
        {
            let e = &es[i];
            if !e.k.p.compare_lt(&crate::bpos::bpos_max()) {
                return false;
            }
            if e.v.len() > BKEY_VAL_MAX_BYTES {
                return false;
            }
            if i > 0 && !es[i - 1].k.p.compare_lt(&e.k.p) {
                assert(keys_of(es@)[i - 1] == es@[i - 1].k.p);
                assert(!strictly_sorted(keys_of(es@))) by {
                    assert(bpos_lt(keys_of(es@)[i - 1], keys_of(es@)[i as int]) == false);
                }
                return false;
            }
            assert forall|a: int, b: int|
                0 <= a < b < i + 1 implies bpos_lt(
                #[trigger] keys_of(es@.subrange(0, i + 1))[a],
                #[trigger] keys_of(es@.subrange(0, i + 1))[b],
            ) by {
                assert(keys_of(es@.subrange(0, i + 1))[a] == es@[a].k.p);
                assert(keys_of(es@.subrange(0, i + 1))[b] == es@[b].k.p);
                if b < i {
                    assert(keys_of(es@.subrange(0, i as int))[a] == es@[a].k.p);
                    assert(keys_of(es@.subrange(0, i as int))[b] == es@[b].k.p);
                } else if a < i - 1 {
                    assert(keys_of(es@.subrange(0, i as int))[a] == es@[a].k.p);
                    assert(keys_of(es@.subrange(0, i as int))[i - 1] == es@[i - 1].k.p);
                }
            }
            i = i + 1;
        }
        assert(es@.subrange(0, i as int) =~= es@);
        true
    }
}

/// A handle on a mounted filesystem. Its state is always well formed.
pub struct Fs {
    raw: bch_fs,
}

impl Fs {
    #[verifier::type_invariant]
    spec fn inv(&self) -> bool {
        self.raw.wf()
    }

    /// The filesystem state behind the handle.
    pub closed spec fn inner(&self) -> bch_fs {
        self.raw
    }

    /// A handle on `raw`, or `None` when one of its tables is not well formed
    /// or its damaged entry carries no plain errno.
    pub fn new(raw: bch_fs) -> (r: Option<Fs>)
        ensures
            r is Some <==> raw.wf(),
            r matches Some(fs) ==> fs.inner() == raw,
    {
        if raw.btrees.len() > 4294967295usize {
            return None;
        }
        match raw.read_error {
            Some(re) => {
                if re.code.code < 1 || re.code.code >= BCH_ERR_START {
                    return None;
                }
            },
            None => {},
        }
        let mut id: usize = 0;
        while id < raw.btrees.len()
            invariant
                id <= raw.btrees@.len(),
                forall|j: int| 0 <= j < id ==> bch_fs::table_wf(#[trigger] raw.btree(j)),
            decreases raw.btrees@.len() - id,
        {
            if !bch_fs::check_table(&raw.btrees[id]) {
                assert(!bch_fs::table_wf(raw.btree(id as int)));
                return None;
            }
            id = id + 1;
        }
        Some(Fs { raw })
    }

    /// The filesystem state.
    pub fn raw(&self) -> (r: &bch_fs)
        ensures
            *r == self.inner(),
            r.wf(),
    {
        proof {
            use_type_invariant(self);
        }
        &self.raw
    }

    /// Number of btrees.
    pub fn nr_btrees(&self) -> (r: usize)
        ensures
            r == self.inner().btrees@.len(),
            self.inner().wf(),
    {
        proof {
            use_type_invariant(self);
        }
        self.raw.btrees.len()
    }
}

} // verus!
