use bcachefs::bkey::{bch_extent_ptr, bkey, Bkey};
use bcachefs::bpos::{bpos_max, bpos_min, pos, spos, spos_max_pos, Bpos};
use bcachefs::error::{errcode_to_ptr, errptr_to_result_c, BchErrcode, Error, EFAULT, EIO};
use std::cmp::Ordering;

#[test]
fn compare_orders_by_inode_offset_snapshot() {
    let a = spos(1, 10, 0);
    let b = spos(1, 20, 0);
    let c = spos(2, 5, 0);
    let d = spos(1, 10, 3);
    assert_eq!(a.compare(&b), Ordering::Less);
    assert_eq!(b.compare(&a), Ordering::Greater);
    assert_eq!(b.compare(&c), Ordering::Less);
    assert_eq!(a.compare(&d), Ordering::Less);
    assert_eq!(d.compare(&b), Ordering::Less);
    assert_eq!(a.compare(&a), Ordering::Equal);
    assert!(a.equals(&spos(1, 10, 0)));
    assert!(!a.equals(&d));
    assert!(a < b);
    assert!(c > b);
}

#[test]
fn compare_is_antisymmetric_on_samples() {
    let ps = [
        spos(0, 0, 0),
        spos(0, 0, 1),
        spos(0, 1, 0),
        spos(1, 0, 0),
        spos(u64::MAX, u64::MAX, 0),
        spos(u64::MAX, u64::MAX, u32::MAX),
    ];
    for a in ps.iter() {
        assert_eq!(a.compare(a), Ordering::Equal);
        for b in ps.iter() {
            assert_eq!(a.compare(b), b.compare(a).reverse());
            assert_eq!(a.compare(b) == Ordering::Equal, a == b);
        }
    }
}

#[test]
fn sentinels() {
    assert_eq!(bpos_min(), Bpos { inode: 0, offset: 0, snapshot: 0 });
    assert_eq!(bpos_max(), spos(u64::MAX, u64::MAX, 0));
    assert_eq!(spos_max_pos(), spos(u64::MAX, u64::MAX, u32::MAX));
    assert_eq!(pos(4, 5), spos(4, 5, 0));
    assert_eq!(bpos_max().compare(&spos_max_pos()), Ordering::Less);
}

#[test]
fn successor_carries() {
    assert_eq!(spos(1, 2, 3).successor(), spos(1, 2, 4));
    assert_eq!(spos(1, 2, u32::MAX).successor(), spos(1, 3, 0));
    assert_eq!(spos(1, u64::MAX, u32::MAX).successor(), spos(2, 0, 0));
}

#[test]
fn errptr_decoding() {
    assert_eq!(errptr_to_result_c(0), Ok(0));
    assert_eq!(errptr_to_result_c(4096), Ok(4096));
    assert_eq!(errptr_to_result_c(usize::MAX - 4095), Ok(usize::MAX - 4095));
    assert_eq!(errptr_to_result_c(usize::MAX), Err(BchErrcode { code: 1 }));
    assert_eq!(errptr_to_result_c(usize::MAX - 4094), Err(BchErrcode { code: 4095 }));
    let e = BchErrcode { code: 5 };
    assert_eq!(errptr_to_result_c(errcode_to_ptr(e)), Err(e));
}

#[test]
fn errcode_to_error() {
    assert_eq!(Error::from_bch(BchErrcode { code: 14 }).errno, EFAULT);
    assert_eq!(Error::from_bch(BchErrcode { code: 2050 }).errno, EIO);
    assert_eq!(Error { errno: EFAULT }.to_errno(), -14);
    assert!(BchErrcode { code: 2048 }.is_restart());
    assert!(!BchErrcode { code: 5 }.is_restart());
}

#[test]
fn bkey_bitfields() {
    let mut k = bkey::new(spos(1, 2, 3), 7, 9);
    assert_eq!(k.u64s, 7);
    assert_eq!(k.format(), 0);
    k.set_format(0x55);
    k.set_needs_whiteout(1);
    assert_eq!(k.format(), 0x55);
    assert_eq!(k.needs_whiteout(), 1);
    k.set_format(0xff);
    assert_eq!(k.format(), 0x7f);
    assert_eq!(k.needs_whiteout(), 1);
    k.set_needs_whiteout(0);
    assert_eq!(k._bitfield_1, 0x7f);
    assert_eq!(bkey::new_bitfield_1(3, 1), 0x83);
    let e = Bkey::new(spos(1, 2, 3), vec![1, 2, 3]);
    assert_eq!(e.k.p, spos(1, 2, 3));
    assert_eq!(e.k.u64s, 6);
}

#[test]
fn extent_ptr_bitfields() {
    let mut p = bch_extent_ptr { _bitfield_1: 0 };
    p.set_type(1);
    p.set_cached(1);
    p.set_offset(0x1234_5678_9ab);
    p.set_dev(0xfe);
    p.set_gen(0x7);
    assert_eq!(p.type_(), 1);
    assert_eq!(p.cached(), 1);
    assert_eq!(p.unused(), 0);
    assert_eq!(p.unwritten(), 0);
    assert_eq!(p.offset(), 0x1234_5678_9ab);
    assert_eq!(p.dev(), 0xfe);
    assert_eq!(p.gen(), 0x7);
    p.set_offset(u64::MAX);
    assert_eq!(p.offset(), (1u64 << 44) - 1);
    assert_eq!(p.dev(), 0xfe);
    let w = bch_extent_ptr::new_bitfield_1(1, 1, 0, 1, 0x1234_5678_9ab, 0xfe, 0x7);
    assert_eq!(w & 0xf, 0b1011);
    assert_eq!((w >> 4) & ((1u64 << 44) - 1), 0x1234_5678_9ab);
    assert_eq!(w >> 56, 0x7);
}
