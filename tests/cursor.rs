use bcachefs::bkey::Bkey;
use bcachefs::bpos::{spos, Bpos};
use bcachefs::btree::{BtreeIter, BtreeTrans, BTREE_ITER_ALL_SNAPSHOTS, BTREE_ITER_PREFETCH};
use bcachefs::error::BchErrcode;
use bcachefs::fs::{bch_fs, Fs, ReadError};

fn entry(inode: u64, offset: u64, snapshot: u32, v: &[u8]) -> Bkey {
    Bkey::new(spos(inode, offset, snapshot), v.to_vec())
}

fn sample_fs(read_error: Option<ReadError>) -> Fs {
    let raw = bch_fs {
        btrees: vec![
            vec![],
            vec![
                entry(1, 10, 0, b"a"),
                entry(1, 10, 7, b"b"),
                entry(1, 20, 0, b"c"),
                entry(2, 5, 0, b"d"),
            ],
        ],
        read_error,
    };
    Fs::new(raw).unwrap()
}

const FLAGS: u16 = BTREE_ITER_PREFETCH | BTREE_ITER_ALL_SNAPSHOTS;

fn walk(iter: &mut BtreeIter<'_>) -> Vec<Bpos> {
    let mut out = Vec::new();
    loop {
        let p = match iter.peek().unwrap() {
            Some(k) => k.k.p,
            None => break,
        };
        out.push(p);
        iter.advance();
    }
    out
}

#[test]
fn fs_rejects_unsorted_tables() {
    let raw = bch_fs {
        btrees: vec![vec![entry(2, 0, 0, b""), entry(1, 0, 0, b"")]],
        read_error: None,
    };
    assert!(Fs::new(raw).is_none());
    let dup = bch_fs {
        btrees: vec![vec![entry(1, 0, 0, b""), entry(1, 0, 0, b"")]],
        read_error: None,
    };
    assert!(Fs::new(dup).is_none());
    let at_max = bch_fs {
        btrees: vec![vec![entry(u64::MAX, u64::MAX, 0, b"")]],
        read_error: None,
    };
    assert!(Fs::new(at_max).is_none());
    let fs = sample_fs(None);
    assert_eq!(fs.nr_btrees(), 2);
    assert_eq!(fs.raw().btrees[1].len(), 4);
}

#[test]
fn traversal_is_strictly_increasing() {
    let fs = sample_fs(None);
    let trans = BtreeTrans::new(&fs);
    let mut iter = BtreeIter::new(&trans, 1, spos(0, 0, 0), FLAGS);
    let seen = walk(&mut iter);
    assert_eq!(seen, vec![spos(1, 10, 0), spos(1, 10, 7), spos(1, 20, 0), spos(2, 5, 0)]);
    for w in seen.windows(2) {
        assert!(w[0] < w[1]);
    }
    assert!(iter.peek().unwrap().is_none());
}

#[test]
fn peek_does_not_move_and_returns_value() {
    let fs = sample_fs(None);
    let trans = BtreeTrans::new(&fs);
    let mut iter = BtreeIter::new(&trans, 1, spos(1, 11, 0), FLAGS);
    {
        let k = iter.peek().unwrap().unwrap();
        assert_eq!(k.k.p, spos(1, 20, 0));
        assert_eq!(k.v, b"c");
    }
    assert_eq!(iter.cur_pos(), spos(1, 20, 0));
    let again = iter.peek().unwrap().unwrap().k.p;
    assert_eq!(again, spos(1, 20, 0));
    iter.advance();
    assert_eq!(iter.cur_pos(), spos(1, 20, 1));
}

#[test]
fn peek_upto_respects_bound() {
    let fs = sample_fs(None);
    let trans = BtreeTrans::new(&fs);
    let mut iter = BtreeIter::new(&trans, 1, spos(1, 11, 0), FLAGS);
    assert!(iter.peek_upto(spos(1, 19, 0)).unwrap().is_none());
    assert_eq!(iter.peek_upto(spos(1, 20, 0)).unwrap().unwrap().k.p, spos(1, 20, 0));
}

#[test]
fn without_all_snapshots_versions_are_skipped() {
    let fs = sample_fs(None);
    let trans = BtreeTrans::new(&fs);
    let mut iter = BtreeIter::new(&trans, 1, spos(0, 0, 0), BTREE_ITER_PREFETCH);
    let seen = walk(&mut iter);
    assert_eq!(seen, vec![spos(1, 10, 0), spos(1, 20, 0), spos(2, 5, 0)]);
}

#[test]
fn empty_btree_yields_nothing() {
    let fs = sample_fs(None);
    let trans = BtreeTrans::new(&fs);
    trans.unlock();
    let mut iter = BtreeIter::new(&trans, 0, spos(0, 0, 0), FLAGS);
    assert!(iter.peek().unwrap().is_none());
    assert!(iter.peek_and_restart().unwrap().is_none());
}

#[test]
fn restart_between_peeks_loses_and_repeats_nothing() {
    let fs = sample_fs(None);
    let trans = BtreeTrans::new(&fs);
    let mut iter = BtreeIter::new(&trans, 1, spos(0, 0, 0), FLAGS);
    let mut seen = Vec::new();
    let mut step = 0;
    loop {
        if step % 2 == 1 {
            iter.inject_conflict();
        }
        let p = match iter.peek_and_restart().unwrap() {
            Some(k) => k.k.p,
            None => break,
        };
        seen.push(p);
        iter.advance();
        step += 1;
    }
    assert_eq!(seen, vec![spos(1, 10, 0), spos(1, 10, 7), spos(1, 20, 0), spos(2, 5, 0)]);
}

#[test]
fn conflict_before_plain_peek_is_retried() {
    let fs = sample_fs(None);
    let trans = BtreeTrans::new(&fs);
    let mut iter = BtreeIter::new(&trans, 1, spos(1, 15, 0), FLAGS);
    iter.inject_conflict();
    assert_eq!(iter.peek().unwrap().unwrap().k.p, spos(1, 20, 0));
}

#[test]
fn damaged_entry_is_reported() {
    let re = ReadError { btree: 1, pos: spos(1, 20, 0), code: BchErrcode { code: 5 } };
    let fs = sample_fs(Some(re));
    let trans = BtreeTrans::new(&fs);
    let mut iter = BtreeIter::new(&trans, 1, spos(1, 11, 0), FLAGS);
    assert_eq!(iter.peek().err(), Some(BchErrcode { code: 5 }));
    assert_eq!(iter.cur_pos(), spos(1, 11, 0));
    let mut other = BtreeIter::new(&trans, 1, spos(1, 21, 0), FLAGS);
    assert_eq!(other.peek().unwrap().unwrap().k.p, spos(2, 5, 0));
}

#[test]
fn fs_rejects_private_read_error_code() {
    let re = ReadError { btree: 1, pos: spos(1, 20, 0), code: BchErrcode { code: 2048 } };
    let raw = bch_fs { btrees: vec![vec![entry(1, 20, 0, b"")]], read_error: Some(re) };
    assert!(Fs::new(raw).is_none());
}
