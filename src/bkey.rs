//! Key headers, extent pointers, stored entries and the borrowed view of an
//! entry that a cursor hands out, with the text form of an entry.

use crate::bpos::Bpos;
use crate::fs::Fs;
use crate::printbuf::{decimal, printbuf, Printbuf, lemma_decimal_len};
use vstd::prelude::*;

verus! {

/// Size of a key header, in 64-bit words.
pub const BKEY_U64S: usize = 5;

/// Largest size of a key with its value, in 64-bit words.
pub const BKEY_U64S_MAX: usize = 255;

/// Largest size of a value, in bytes.
pub const BKEY_VAL_MAX_BYTES: usize = 2000;

/// Version of a key.
#[allow(non_camel_case_types)]
#[derive(Clone, Copy, Debug, PartialEq, Eq, Structural)]
pub struct bversion {
    pub hi: u32,
    pub lo: u64,
}

/// Header of a key: its size, format, type, version and position.
#[allow(non_camel_case_types)]
#[derive(Clone, Copy, Debug, PartialEq, Eq, Structural)]
pub struct bkey {
    pub u64s: u8,
    /// Bits 0..7: format; bit 7: needs whiteout.
    pub _bitfield_1: u8,
    pub type_: u8,
    pub pad: u8,
    pub version: bversion,
    pub size: u32,
    pub p: Bpos,
}

impl bkey {
    /// A header for a key at `p` carrying a value of `val_bytes` bytes.
    pub fn new(p: Bpos, type_: u8, val_bytes: usize) -> (r: bkey)
        requires
            val_bytes <= BKEY_VAL_MAX_BYTES,
        ensures
            r.p == p,
            r.type_ == type_,
            r.u64s as int == BKEY_U64S + (val_bytes + 7) / 8,
            r._bitfield_1 == 0,
            r.size == 0,
            r.version == (bversion { hi: 0, lo: 0 }),
    {
        let words: usize = BKEY_U64S + (val_bytes + 7) / 8;
        bkey {
            u64s: words as u8,
            _bitfield_1: 0,
            type_,
            pad: 0,
            version: bversion { hi: 0, lo: 0 },
            size: 0,
            p,
        }
    }

    pub fn format(&self) -> (r: u8)
        ensures
            r == self._bitfield_1 & 0x7f,
    {
        self._bitfield_1 & 0x7f
    }

    pub fn set_format(&mut self, val: u8)
        ensures
            *final(self) == (bkey {
                _bitfield_1: (old(self)._bitfield_1 & 0x80) | (val & 0x7f),
                ..*old(self)
            }),
    {
        self._bitfield_1 = (self._bitfield_1 & 0x80) | (val & 0x7f);
    }

    pub fn needs_whiteout(&self) -> (r: u8)
        ensures
            r == self._bitfield_1 >> 7u8,
    {
        self._bitfield_1 >> 7u8
    }

    pub fn set_needs_whiteout(&mut self, val: u8)
        ensures
            *final(self) == (bkey {
                _bitfield_1: (old(self)._bitfield_1 & 0x7f) | ((val & 1) << 7u8),
                ..*old(self)
            }),
    {
        self._bitfield_1 = (self._bitfield_1 & 0x7f) | ((val & 1) << 7u8);
    }

    /// The bitfield byte that holds `format` and `needs_whiteout`.
    pub fn new_bitfield_1(format: u8, needs_whiteout: u8) -> (r: u8)
        ensures
            r == (format & 0x7f) | ((needs_whiteout & 1) << 7u8),
    {
        (format & 0x7f) | ((needs_whiteout & 1) << 7u8)
    }
}

/// The bits of `unit` from `off`, `width` of them.
pub open spec fn field_get(unit: u64, off: u64, width: u64) -> u64 {
    (unit >> off) & (((1u64 << width) - 1) as u64)
}

/// `unit` with the `width` bits from `off` replaced by the low bits of `val`.
pub open spec fn field_set(unit: u64, off: u64, width: u64, val: u64) -> u64 {
    let mask = ((1u64 << width) - 1) as u64;
    (unit & !(mask << off)) | ((val & mask) << off)
}

fn unit_get(unit: u64, off: u64, width: u64) -> (r: u64)
    requires
        1 <= width < 64,
        off + width <= 64,
    ensures
        r == field_get(unit, off, width),
{
    assert(1u64 << width >= 1) by (bit_vector)
        requires
            width < 64,
    ;
    (unit >> off) & ((1u64 << width) - 1)
}

fn unit_set(unit: u64, off: u64, width: u64, val: u64) -> (r: u64)
    requires
        1 <= width < 64,
        off + width <= 64,
    ensures
        r == field_set(unit, off, width, val),
{
    assert(1u64 << width >= 1) by (bit_vector)
        requires
            width < 64,
    ;
    let mask: u64 = (1u64 << width) - 1;
    (unit & !(mask << off)) | ((val & mask) << off)
}

/// Setting a field and reading it back gives the value cut to the field's width.
pub proof fn lemma_field_round_trip(unit: u64, off: u64, width: u64, val: u64)
    requires
        1 <= width < 64,
        off + width <= 64,
    ensures
        field_get(field_set(unit, off, width, val), off, width) == val & (((1u64 << width)
            - 1) as u64),
{
    assert(1u64 << width >= 1) by (bit_vector)
        requires
            width < 64,
    ;
    let mask = ((1u64 << width) - 1) as u64;
    assert((((unit & !(mask << off)) | ((val & mask) << off)) >> off) & mask == val & mask)
        by (bit_vector)
        requires
            1 <= width < 64,
            off + width <= 64,
            mask == (1u64 << width) - 1,
    ;
}

/// A pointer from an extent to its data: type, cached, unused and unwritten
/// bits, a 44-bit offset, a device and a generation, packed in one word.
#[allow(non_camel_case_types)]
#[derive(Clone, Copy, Debug, PartialEq, Eq, Structural)]
pub struct bch_extent_ptr {
    pub _bitfield_1: u64,
}

impl bch_extent_ptr {
    pub fn type_(&self) -> (r: u64)
        ensures
            r == field_get(self._bitfield_1, 0, 1),
    {
        unit_get(self._bitfield_1, 0, 1)
    }

    pub fn set_type(&mut self, val: u64)
        ensures
            final(self)._bitfield_1 == field_set(old(self)._bitfield_1, 0, 1, val),
    {
        self._bitfield_1 = unit_set(self._bitfield_1, 0, 1, val);
    }

    pub fn cached(&self) -> (r: u64)
        ensures
            r == field_get(self._bitfield_1, 1, 1),
    {
        unit_get(self._bitfield_1, 1, 1)
    }

    pub fn set_cached(&mut self, val: u64)
        ensures
            final(self)._bitfield_1 == field_set(old(self)._bitfield_1, 1, 1, val),
    {
        self._bitfield_1 = unit_set(self._bitfield_1, 1, 1, val);
    }

    pub fn unused(&self) -> (r: u64)
        ensures
            r == field_get(self._bitfield_1, 2, 1),
    {
        unit_get(self._bitfield_1, 2, 1)
    }

    pub fn set_unused(&mut self, val: u64)
        ensures
            final(self)._bitfield_1 == field_set(old(self)._bitfield_1, 2, 1, val),
    {
        self._bitfield_1 = unit_set(self._bitfield_1, 2, 1, val);
    }

    pub fn unwritten(&self) -> (r: u64)
        ensures
            r == field_get(self._bitfield_1, 3, 1),
    {
        unit_get(self._bitfield_1, 3, 1)
    }

    pub fn set_unwritten(&mut self, val: u64)
        ensures
            final(self)._bitfield_1 == field_set(old(self)._bitfield_1, 3, 1, val),
    {
        self._bitfield_1 = unit_set(self._bitfield_1, 3, 1, val);
    }

    pub fn offset(&self) -> (r: u64)
        ensures
            r == field_get(self._bitfield_1, 4, 44),
    {
        unit_get(self._bitfield_1, 4, 44)
    }

    pub fn set_offset(&mut self, val: u64)
        ensures
            final(self)._bitfield_1 == field_set(old(self)._bitfield_1, 4, 44, val),
    {
        self._bitfield_1 = unit_set(self._bitfield_1, 4, 44, val);
    }

    pub fn dev(&self) -> (r: u64)
        ensures
            r == field_get(self._bitfield_1, 48, 8),
    {
        unit_get(self._bitfield_1, 48, 8)
    }

    pub fn set_dev(&mut self, val: u64)
        ensures
            final(self)._bitfield_1 == field_set(old(self)._bitfield_1, 48, 8, val),
    {
        self._bitfield_1 = unit_set(self._bitfield_1, 48, 8, val);
    }

    pub fn gen(&self) -> (r: u64)
        ensures
            r == field_get(self._bitfield_1, 56, 8),
    {
        unit_get(self._bitfield_1, 56, 8)
    }

    pub fn set_gen(&mut self, val: u64)
        ensures
            final(self)._bitfield_1 == field_set(old(self)._bitfield_1, 56, 8, val),
    {
        self._bitfield_1 = unit_set(self._bitfield_1, 56, 8, val);
    }

    /// The packed word for the given field values.
    pub fn new_bitfield_1(
        type_: u64,
        cached: u64,
        unused: u64,
        unwritten: u64,
        offset: u64,
        dev: u64,
        gen: u64,
    ) -> (r: u64)
        ensures
            r == field_set(
                field_set(
                    field_set(
                        field_set(
                            field_set(field_set(field_set(0, 0, 1, type_), 1, 1, cached), 2, 1, unused),
                            3,
                            1,
                            unwritten,
                        ),
                        4,
                        44,
                        offset,
                    ),
                    48,
                    8,
                    dev,
                ),
                56,
                8,
                gen,
            ),
    {
        let mut unit: u64 = 0;
        unit = unit_set(unit, 0, 1, type_);
        unit = unit_set(unit, 1, 1, cached);
        unit = unit_set(unit, 2, 1, unused);
        unit = unit_set(unit, 3, 1, unwritten);
        unit = unit_set(unit, 4, 44, offset);
        unit = unit_set(unit, 48, 8, dev);
        unit = unit_set(unit, 56, 8, gen);
        unit
    }
}

/// An entry as stored in a btree: its header and its value bytes.
pub struct Bkey {
    pub k: bkey,
    pub v: Vec<u8>,
}

impl Bkey {
    /// An entry at `p` holding `v`.
    pub fn new(p: Bpos, v: Vec<u8>) -> (r: Bkey)
        requires
            v@.len() <= BKEY_VAL_MAX_BYTES,
        ensures
            r.k.p == p,
            r.v@ == v@,
    {
        let k = bkey::new(p, 0, v.len());
        Bkey { k, v }
    }
}

/// Text form of a position: `inode:offset:snapshot` in decimal.
pub open spec fn bpos_text(p: Bpos) -> Seq<u8> {
    decimal(p.inode as nat) + seq![58u8] + decimal(p.offset as nat) + seq![58u8] + decimal(
        p.snapshot as nat,
    )
}

/// Text form of an entry: its position, a colon and a space, then its value.
pub open spec fn bkey_text(k: bkey, v: Seq<u8>) -> Seq<u8> {
    bpos_text(k.p) + seq![58u8, 32u8] + v
}

/// Largest length of the text form of an entry.
pub open spec fn bkey_text_max() -> nat {
    (54 + BKEY_VAL_MAX_BYTES) as nat
}

/// A borrowed view of one entry, valid until the next operation on the
/// cursor that produced it.
pub struct BkeySC<'a> {
    pub k: &'a bkey,
    pub v: &'a [u8],
}

impl<'a> BkeySC<'a> {
    /// Appends the text form of the entry to `buf`.
    pub fn write_to_printbuf(&self, fs: &Fs, buf: &mut Printbuf)
        requires
            old(buf).wf(),
            self.v@.len() <= BKEY_VAL_MAX_BYTES,
            old(buf)@.len() + bkey_text_max() <= u32::MAX,
        ensures
            final(buf).wf(),
            final(buf)@ == old(buf)@ + bkey_text(*self.k, self.v@),
            bkey_text(*self.k, self.v@).len() <= bkey_text_max(),
            final(buf).inner().allocation_failure == old(buf).inner().allocation_failure,
            final(buf).inner().indent == old(buf).inner().indent,
    {
        let raw: &mut printbuf = buf.raw_mut();
        proof {
            lemma_decimal_len(self.k.p.inode as nat);
            lemma_decimal_len(self.k.p.offset as nat);
            lemma_decimal_len(self.k.p.snapshot as nat);
        }
        raw.prt_u64(self.k.p.inode);
        raw.prt_char(58u8);
        raw.prt_u64(self.k.p.offset);
        raw.prt_char(58u8);
        raw.prt_u64(self.k.p.snapshot as u64);
        raw.prt_char(58u8);
        raw.prt_char(32u8);
        assert(raw.text() =~= old(buf)@ + bpos_text(self.k.p) + seq![58u8, 32u8]);
        assert(raw.text().len() == raw.pos);
        raw.prt_bytes(self.v);
        assert(raw.text() =~= old(buf)@ + bkey_text(*self.k, self.v@));
    }

    /// The text form of the entry in a fresh buffer.
    pub fn to_text(&self, fs: &Fs) -> (r: Printbuf)
        requires
            self.v@.len() <= BKEY_VAL_MAX_BYTES,
        ensures
            r.wf(),
            r@ == bkey_text(*self.k, self.v@),
    {
        let mut buf = Printbuf::new();
        self.write_to_printbuf(fs, &mut buf);
        assert(buf@ =~= bkey_text(*self.k, self.v@));
        buf
    }
}

} // verus!
