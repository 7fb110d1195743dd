use bcachefs::tb_debugfs::{tb_rs_open, tb_rs_read, tb_rs_release};
use bcachefs::uaccess::UserSliceWriter;

fn read(state: &mut bcachefs::tb_debugfs::DebugfsState, len: usize, off: &mut usize) -> (isize, Vec<u8>) {
    let mut w = UserSliceWriter::new(len, len);
    let r = tb_rs_read(state, &mut w, off);
    (r, w.as_slice().to_vec())
}

#[test]
fn countdown_lines_then_zero() {
    let mut st = tb_rs_open();
    let mut off = 0usize;
    for n in (1..7).rev() {
        let (r, bytes) = read(&mut st, 100, &mut off);
        let expected = format!("tb_rs_read: data: MyObject: {}\n", n).into_bytes();
        assert_eq!(r as usize, expected.len());
        assert_eq!(bytes, expected);
    }
    assert_eq!(off, 6 * 30);
    assert_eq!(read(&mut st, 100, &mut off).0, 0);
    assert_eq!(read(&mut st, 100, &mut off).0, 0);
    assert_eq!(off, 180);
    tb_rs_release(st);
}

#[test]
fn countdown_short_reads_keep_the_rest() {
    let mut st = tb_rs_open();
    let mut off = 0usize;
    let (r, bytes) = read(&mut st, 12, &mut off);
    assert_eq!(r, 12);
    assert_eq!(bytes, b"tb_rs_read: ".to_vec());
    let (r, bytes) = read(&mut st, 100, &mut off);
    assert_eq!(r, 18);
    assert_eq!(bytes, b"data: MyObject: 6\n".to_vec());
    assert_eq!(off, 30);
    let (_, bytes) = read(&mut st, 100, &mut off);
    assert_eq!(bytes, b"tb_rs_read: data: MyObject: 5\n".to_vec());
}

#[test]
fn countdown_fault_keeps_line() {
    let mut st = tb_rs_open();
    let mut off = 0usize;
    let mut w = UserSliceWriter::new(100, 3);
    assert_eq!(tb_rs_read(&mut st, &mut w, &mut off), -14);
    assert_eq!(off, 0);
    let (_, bytes) = read(&mut st, 100, &mut off);
    assert_eq!(bytes, b"tb_rs_read: data: MyObject: 6\n".to_vec());
}
