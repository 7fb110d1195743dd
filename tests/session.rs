use bcachefs::bkey::Bkey;
use bcachefs::bpos::spos;
use bcachefs::btree_debugfs::{BtreeDebug, BtreeDebugRegistry};
use bcachefs::debugfs::DebugfsReader;
use bcachefs::error::{BchErrcode, EFAULT, EIO};
use bcachefs::fs::{bch_fs, Fs, ReadError};
use bcachefs::my_collection::{MyObject, MyReader};
use bcachefs::reader::{BufRead, IntoBufReader};
use bcachefs::uaccess::UserSliceWriter;

fn entry(inode: u64, offset: u64, snapshot: u32, v: &[u8]) -> Bkey {
    Bkey::new(spos(inode, offset, snapshot), v.to_vec())
}

fn scenario_fs(read_error: Option<ReadError>) -> Fs {
    let raw = bch_fs {
        btrees: vec![vec![entry(1, 10, 0, b"x"), entry(1, 20, 0, b"y"), entry(2, 5, 0, b"z")]],
        read_error,
    };
    Fs::new(raw).unwrap()
}

const DUMP: &[u8] = b"1:10:0: x\n1:20:0: y\n2:5:0: z\n";

fn read_chunk<T: IntoBufReader + Copy>(
    state: &mut bcachefs::debugfs::DebugfsReaderState<T::BufReader>,
    len: usize,
) -> (isize, Vec<u8>) {
    let mut w = UserSliceWriter::new(len, len);
    let r = DebugfsReader::<T>::read(state, &mut w);
    (r, w.as_slice().to_vec())
}

#[test]
fn btree_dump_yields_entries_in_order_then_zero() {
    let fs = scenario_fs(None);
    let d = BtreeDebug::new(&fs, 0).unwrap();
    let mut st = DebugfsReader::<BtreeDebug>::open(&d);
    let mut lines = Vec::new();
    for _ in 0..3 {
        let (r, bytes) = read_chunk::<BtreeDebug>(&mut st, 10);
        assert_eq!(r as usize, bytes.len());
        lines.push(bytes);
    }
    assert_eq!(lines[0], b"1:10:0: x\n".to_vec());
    assert_eq!(lines[1], b"1:20:0: y\n".to_vec());
    assert_eq!(lines[2], b"2:5:0: z\n".to_vec());
    let (r, bytes) = read_chunk::<BtreeDebug>(&mut st, 10);
    assert_eq!(r, 0);
    assert!(bytes.is_empty());
    DebugfsReader::<BtreeDebug>::release(st);
}

#[test]
fn btree_dump_in_small_chunks() {
    let fs = scenario_fs(None);
    let d = BtreeDebug::new(&fs, 0).unwrap();
    let mut st = DebugfsReader::<BtreeDebug>::open(&d);
    let mut all = Vec::new();
    loop {
        let (r, bytes) = read_chunk::<BtreeDebug>(&mut st, 3);
        assert!(r >= 0);
        if r == 0 {
            break;
        }
        assert!(r <= 3);
        all.extend_from_slice(&bytes);
    }
    assert_eq!(all, DUMP.to_vec());
}

#[test]
fn btree_dump_in_one_large_read() {
    let fs = scenario_fs(None);
    let d = BtreeDebug::new(&fs, 0).unwrap();
    let mut st = DebugfsReader::<BtreeDebug>::open(&d);
    let (r, bytes) = read_chunk::<BtreeDebug>(&mut st, 4096);
    assert_eq!(r as usize, DUMP.len());
    assert_eq!(bytes, DUMP.to_vec());
    assert_eq!(read_chunk::<BtreeDebug>(&mut st, 4096).0, 0);
}

#[test]
fn two_sessions_read_independently() {
    let fs = scenario_fs(None);
    let reg = BtreeDebugRegistry::new(&fs);
    let d = reg.setup_btree(0).unwrap();
    assert!(reg.setup_btree(1).is_none());
    let mut a = DebugfsReader::<BtreeDebug>::open(&d);
    let mut b = DebugfsReader::<BtreeDebug>::open(&d);
    let mut out_a = Vec::new();
    let mut out_b = Vec::new();
    let mut done_a = false;
    let mut done_b = false;
    let mut turn = 0usize;
    while !(done_a && done_b) {
        if turn % 3 != 2 && !done_a {
            let (r, bytes) = read_chunk::<BtreeDebug>(&mut a, 4);
            done_a = r == 0;
            out_a.extend_from_slice(&bytes);
        } else if !done_b {
            let (r, bytes) = read_chunk::<BtreeDebug>(&mut b, 7);
            done_b = r == 0;
            out_b.extend_from_slice(&bytes);
        }
        turn += 1;
    }
    assert_eq!(out_a, DUMP.to_vec());
    assert_eq!(out_b, DUMP.to_vec());
}

#[test]
fn end_of_stream_is_sticky() {
    let fs = scenario_fs(None);
    let d = BtreeDebug::new(&fs, 0).unwrap();
    let mut p = d.into_bufreader();
    let mut n = 0;
    loop {
        let len = p.fill_buf().unwrap().len();
        if len == 0 {
            break;
        }
        p.consume(len);
        n += 1;
    }
    assert_eq!(n, 3);
    for _ in 0..3 {
        assert_eq!(p.fill_buf().unwrap().len(), 0);
    }
    let mut st = DebugfsReader::<BtreeDebug>::open(&d);
    assert_eq!(read_chunk::<BtreeDebug>(&mut st, 4096).0 as usize, DUMP.len());
    for _ in 0..3 {
        assert_eq!(read_chunk::<BtreeDebug>(&mut st, 4096).0, 0);
    }
}

#[test]
fn fill_returns_buffered_bytes_without_new_work() {
    let fs = scenario_fs(None);
    let d = BtreeDebug::new(&fs, 0).unwrap();
    let mut p = d.into_bufreader();
    assert_eq!(p.fill_buf().unwrap(), b"1:10:0: x\n");
    p.consume(4);
    assert_eq!(p.fill_buf().unwrap(), b":0: x\n");
    assert_eq!(p.fill_buf().unwrap(), b":0: x\n");
    p.consume(6);
    assert_eq!(p.fill_buf().unwrap(), b"1:20:0: y\n");
}

#[test]
fn partial_copy_fault_is_reported_next_call() {
    let fs = scenario_fs(None);
    let d = BtreeDebug::new(&fs, 0).unwrap();
    let mut st = DebugfsReader::<BtreeDebug>::open(&d);
    let mut w = UserSliceWriter::new(100, 15);
    let r = DebugfsReader::<BtreeDebug>::read(&mut st, &mut w);
    assert_eq!(r, 10);
    assert_eq!(w.as_slice(), b"1:10:0: x\n");
    let mut w2 = UserSliceWriter::new(100, 100);
    let r2 = DebugfsReader::<BtreeDebug>::read(&mut st, &mut w2);
    assert_eq!(r2, -(EFAULT as isize));
    assert!(w2.as_slice().is_empty());
    let r3 = DebugfsReader::<BtreeDebug>::read(&mut st, &mut w2);
    assert_eq!(r3, -(EFAULT as isize));
}

#[test]
fn fault_before_any_byte_is_reported_at_once() {
    let fs = scenario_fs(None);
    let d = BtreeDebug::new(&fs, 0).unwrap();
    let mut st = DebugfsReader::<BtreeDebug>::open(&d);
    let mut w = UserSliceWriter::new(100, 5);
    assert_eq!(DebugfsReader::<BtreeDebug>::read(&mut st, &mut w), -(EFAULT as isize));
    assert!(w.as_slice().is_empty());
    let (r, bytes) = read_chunk::<BtreeDebug>(&mut st, 100);
    assert_eq!(r as usize, DUMP.len());
    assert_eq!(bytes, DUMP.to_vec());
}

#[test]
fn engine_error_is_returned_by_read() {
    let re = ReadError { btree: 0, pos: spos(1, 20, 0), code: BchErrcode { code: 5 } };
    let fs = scenario_fs(Some(re));
    let d = BtreeDebug::new(&fs, 0).unwrap();
    let mut st = DebugfsReader::<BtreeDebug>::open(&d);
    let (r, bytes) = read_chunk::<BtreeDebug>(&mut st, 10);
    assert_eq!(r, 10);
    assert_eq!(bytes, b"1:10:0: x\n".to_vec());
    let (r, _) = read_chunk::<BtreeDebug>(&mut st, 10);
    assert_eq!(r, -(EIO as isize));
    let (r, _) = read_chunk::<BtreeDebug>(&mut st, 10);
    assert_eq!(r, -(EIO as isize));
}

#[test]
fn greeting_producer() {
    let obj = MyObject { data: 2 };
    let mut st = DebugfsReader::<MyObject>::open(&obj);
    let (r, bytes) = read_chunk::<MyObject>(&mut st, 100);
    assert_eq!(r, 32);
    assert_eq!(bytes, b"hello bufreader\nhello bufreader\n".to_vec());
    assert_eq!(read_chunk::<MyObject>(&mut st, 100).0, 0);
    let mut p = MyReader::new(0);
    assert!(p.fill_buf().unwrap().is_empty());
}

#[test]
fn zero_length_read_returns_zero_without_ending() {
    let obj = MyObject { data: 1 };
    let mut st = DebugfsReader::<MyObject>::open(&obj);
    assert_eq!(read_chunk::<MyObject>(&mut st, 0).0, 0);
    assert_eq!(read_chunk::<MyObject>(&mut st, 5).1, b"hello".to_vec());
}

#[test]
fn user_writer_faults_past_accessible_prefix() {
    let mut w = UserSliceWriter::new(10, 4);
    assert_eq!(w.len(), 10);
    assert!(w.write_slice(b"abc").is_ok());
    assert!(w.write_slice(b"de").is_err());
    assert!(w.write_slice(b"d").is_ok());
    assert_eq!(w.as_slice(), b"abcd");
    let mut small = UserSliceWriter::new(2, 10);
    assert!(small.write_slice(b"abc").is_err());
}

#[test]
fn btree_fills_one_entry_line_at_a_time() {
    let fs = scenario_fs(None);
    let d = BtreeDebug::new(&fs, 0).unwrap();
    let mut p = d.into_bufreader();
    let expected: [&[u8]; 3] = [b"1:10:0: x\n", b"1:20:0: y\n", b"2:5:0: z\n"];
    for line in expected.iter() {
        let got = p.fill_buf().unwrap().to_vec();
        assert_eq!(got, line.to_vec());
        p.consume(got.len());
    }
    assert!(p.fill_buf().unwrap().is_empty());
    assert!(p.fill_buf().unwrap().is_empty());
}

#[test]
fn greeting_refills_one_line_at_a_time() {
    let mut r = MyReader::new(2);
    assert_eq!(r.fill_buf().unwrap(), b"hello bufreader\n");
    r.consume(6);
    assert_eq!(r.fill_buf().unwrap(), b"bufreader\n");
    r.consume(10);
    assert_eq!(r.fill_buf().unwrap(), b"hello bufreader\n");
    r.consume(16);
    assert!(r.fill_buf().unwrap().is_empty());
}
