use bcachefs::bkey::{bkey, BkeySC};
use bcachefs::bpos::spos;
use bcachefs::fs::{bch_fs, Fs};
use bcachefs::printbuf::{printbuf, Printbuf};

#[test]
fn printbuf_starts_empty() {
    let b = Printbuf::new();
    assert_eq!(b.len(), 0);
    assert!(b.as_slice().is_empty());
    let raw = printbuf::new();
    assert!(raw.heap_allocated);
    assert_eq!(raw.pos, 0);
}

#[test]
fn printbuf_newline_and_reset() {
    let mut b = Printbuf::new();
    b.raw_mut().prt_bytes(b"abc");
    b.raw_mut().indent = 4;
    b.newline();
    assert_eq!(b.as_slice(), b"abc\n");
    assert_eq!(b.len(), 4);
    b.reset();
    assert_eq!(b.len(), 0);
    assert_eq!(b.raw_mut().indent, 0);
    assert!(b.raw_mut().buf.len() >= 4);
    b.raw_mut().prt_bytes(b"z");
    assert_eq!(b.as_slice(), b"z");
}

#[test]
fn printbuf_decimal() {
    let mut raw = printbuf::new();
    raw.prt_u64(0);
    raw.prt_char(b' ');
    raw.prt_u64(1234567890);
    raw.prt_char(b' ');
    raw.prt_u64(u64::MAX);
    assert_eq!(&raw.buf[..raw.pos as usize], b"0 1234567890 18446744073709551615");
}

#[test]
fn printbuf_flags() {
    let mut raw = printbuf::new();
    raw.prt_char(b'a');
    assert!(!raw.allocation_failure);
    raw.set_allocation_failure(true);
    assert!(raw.allocation_failure);
    raw.set_heap_allocated(false);
    assert!(!raw.heap_allocated);
    assert_eq!(&raw.buf[..raw.pos as usize], b"a");
}

#[test]
fn entry_text_form() {
    let raw = bch_fs { btrees: vec![], read_error: None };
    let fs = Fs::new(raw).unwrap();
    let k = bkey::new(spos(3, 40, 5), 0, 2);
    let v: Vec<u8> = b"hi".to_vec();
    let view = BkeySC { k: &k, v: &v };
    let t = view.to_text(&fs);
    assert_eq!(t.as_slice(), b"3:40:5: hi");
    let mut b = Printbuf::new();
    view.write_to_printbuf(&fs, &mut b);
    b.newline();
    assert_eq!(b.as_slice(), b"3:40:5: hi\n");
}
