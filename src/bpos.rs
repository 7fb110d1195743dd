//! Btree positions: a key made of an inode, an offset and a snapshot id,
//! ordered lexicographically on those three unsigned fields.

use core::cmp::Ordering;
use vstd::prelude::*;

verus! {

/// A position in a btree. Positions are ordered by `inode`, then `offset`,
/// then `snapshot`.
#[derive(Clone, Copy, Debug, PartialEq, Eq, Structural)]
pub struct Bpos {
    pub inode: u64,
    pub offset: u64,
    pub snapshot: u32,
}

/// Strict order on positions.
pub open spec fn bpos_lt(a: Bpos, b: Bpos) -> bool {
    a.inode < b.inode || (a.inode == b.inode && (a.offset < b.offset || (a.offset == b.offset
        && a.snapshot < b.snapshot)))
}

/// Non-strict order on positions.
pub open spec fn bpos_le(a: Bpos, b: Bpos) -> bool {
    bpos_lt(a, b) || a == b
}

/// The three-way comparison of two positions.
pub open spec fn bpos_cmp(a: Bpos, b: Bpos) -> Ordering {
    if bpos_lt(a, b) {
        Ordering::Less
    } else if a == b {
        Ordering::Equal
    } else {
        Ordering::Greater
    }
}

pub open spec fn spos_spec(inode: u64, offset: u64, snapshot: u32) -> Bpos {
    Bpos { inode, offset, snapshot }
}

/// The smallest position.
pub open spec fn pos_min() -> Bpos {
    spos_spec(0, 0, 0)
}

/// The largest position with a zero snapshot, used as a bound that ignores snapshots.
pub open spec fn pos_max() -> Bpos {
    spos_spec(u64::MAX, u64::MAX, 0)
}

/// The largest position of all.
pub open spec fn spos_max() -> Bpos {
    spos_spec(u64::MAX, u64::MAX, u32::MAX)
}

/// The position that immediately follows `p` in the order (`p` is not the largest).
pub open spec fn bpos_successor_spec(p: Bpos) -> Bpos {
    if p.snapshot < u32::MAX {
        Bpos { snapshot: (p.snapshot + 1) as u32, ..p }
    } else if p.offset < u64::MAX {
        Bpos { inode: p.inode, offset: (p.offset + 1) as u64, snapshot: 0 }
    } else {
        Bpos { inode: (p.inode + 1) as u64, offset: 0, snapshot: 0 }
    }
}

/// Builds a position from all three fields.
pub fn spos(inode: u64, offset: u64, snapshot: u32) -> (r: Bpos)
    ensures
        r == spos_spec(inode, offset, snapshot),
{
    Bpos { inode, offset, snapshot }
}

/// Builds a position with a zero snapshot.
pub fn pos(inode: u64, offset: u64) -> (r: Bpos)
    ensures
        r == spos_spec(inode, offset, 0),
{
    spos(inode, offset, 0)
}

/// Returns the smallest position.
pub fn bpos_min() -> (r: Bpos)
    ensures
        r == pos_min(),
{
    spos(0, 0, 0)
}

/// Returns the largest position with a zero snapshot.
pub fn bpos_max() -> (r: Bpos)
    ensures
        r == pos_max(),
{
    spos(u64::MAX, u64::MAX, 0)
}

/// Returns the largest position of all.
pub fn spos_max_pos() -> (r: Bpos)
    ensures
        r == spos_max(),
{
    spos(u64::MAX, u64::MAX, u32::MAX)
}

impl Bpos {
    /// Compares two positions: inode first, then offset, then snapshot.
    pub fn compare(&self, other: &Bpos) -> (r: Ordering)
        ensures
            r == bpos_cmp(*self, *other),
    {
        if self.inode < other.inode {
            Ordering::Less
        } else if self.inode > other.inode {
            Ordering::Greater
        } else if self.offset < other.offset {
            Ordering::Less
        } else if self.offset > other.offset {
            Ordering::Greater
        } else if self.snapshot < other.snapshot {
            Ordering::Less
        } else if self.snapshot > other.snapshot {
            Ordering::Greater
        } else {
            Ordering::Equal
        }
    }

    /// Whether `self` comes strictly before `other`.
    pub fn compare_lt(&self, other: &Bpos) -> (r: bool)
        ensures
            r == bpos_lt(*self, *other),
    {
        match self.compare(other) {
            Ordering::Less => true,
            _ => false,
        }
    }

    /// Whether two positions are equal, as decided by `compare`.
    pub fn equals(&self, other: &Bpos) -> (r: bool)
        ensures
            r == (*self == *other),
    {
        match self.compare(other) {
            Ordering::Equal => true,
            _ => false,
        }
    }

    /// The position right after `self`.
    pub fn successor(&self) -> (r: Bpos)
        requires
            *self != spos_max(),
        ensures
            r == bpos_successor_spec(*self),
    {
        if self.snapshot < u32::MAX {
            Bpos { snapshot: self.snapshot + 1, ..*self }
        } else if self.offset < u64::MAX {
            Bpos { inode: self.inode, offset: self.offset + 1, snapshot: 0 }
        } else {
            Bpos { inode: self.inode + 1, offset: 0, snapshot: 0 }
        }
    }
}

impl PartialOrd for Bpos {
    fn partial_cmp(&self, other: &Bpos) -> (r: Option<Ordering>) {
        Some(self.compare(other))
    }
}

impl vstd::std_specs::cmp::PartialOrdSpecImpl for Bpos {
    open spec fn obeys_partial_cmp_spec() -> bool {
        true
    }

    open spec fn partial_cmp_spec(&self, other: &Bpos) -> Option<Ordering> {
        Some(bpos_cmp(*self, *other))
    }
}

/// The comparison is a total order: reflexive, antisymmetric in its
/// results, transitive, and exactly one of less, equal and greater holds.
pub proof fn lemma_bpos_order(a: Bpos, b: Bpos, c: Bpos)
    ensures
        bpos_cmp(a, a) == Ordering::Equal,
        bpos_cmp(a, b) == Ordering::Less <==> bpos_cmp(b, a) == Ordering::Greater,
        bpos_cmp(a, b) == Ordering::Equal <==> a == b,
        bpos_cmp(a, b) == Ordering::Equal <==> bpos_cmp(b, a) == Ordering::Equal,
        bpos_lt(a, b) && bpos_lt(b, c) ==> bpos_lt(a, c),
        !bpos_lt(a, a),
        bpos_lt(a, b) || a == b || bpos_lt(b, a),
        !(bpos_lt(a, b) && bpos_lt(b, a)),
{
}

/// Every position lies between the smallest and the largest one.
pub proof fn lemma_bpos_bounds(p: Bpos)
    ensures
        bpos_le(pos_min(), p),
        bpos_le(p, spos_max()),
{
}

/// The successor of `p` is the least position greater than `p`.
pub proof fn lemma_successor(p: Bpos, q: Bpos)
    requires
        p != spos_max(),
    ensures
        bpos_lt(p, bpos_successor_spec(p)),
        bpos_lt(p, q) <==> bpos_le(bpos_successor_spec(p), q),
{
}

} // verus!
