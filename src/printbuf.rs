//! A growable text buffer. Its storage is kept across resets; the text is the
//! first `pos` bytes of it.

use vstd::prelude::*;

verus! {

/// The raw text buffer with the formatting state that renderers use.
#[allow(non_camel_case_types)]
pub struct printbuf {
    /// Storage; bytes `[0, pos)` hold the text.
    pub buf: Vec<u8>,
    /// Length of the text.
    pub pos: u32,
    pub indent: u32,
    pub nr_tabstops: u8,
    pub cur_tabstop: u8,
    /// Set, and kept, when text could not be stored.
    pub allocation_failure: bool,
    pub heap_allocated: bool,
}

/// Decimal digits of `n`, most significant first, without leading zeros.
pub open spec fn decimal(n: nat) -> Seq<u8>
    decreases n,
{
    if n < 10 {
        seq![(n + 48) as u8]
    } else {
        decimal(n / 10).push(((n % 10) + 48) as u8)
    }
}

/// `decimal(n)` has at most 20 digits for a 64-bit value, 10 for a 32-bit one.
pub proof fn lemma_decimal_len(n: nat)
    ensures
        n <= u64::MAX ==> decimal(n).len() <= 20,
        n <= u32::MAX ==> decimal(n).len() <= 10,
{
    reveal_with_fuel(pow10, 21);
    assert(pow10(10) == 10000000000nat);
    assert(pow10(20) == 100000000000000000000nat);
    if n <= u64::MAX {
        lemma_decimal_len_bound(n, 20);
    }
    if n <= u32::MAX {
        lemma_decimal_len_bound(n, 10);
    }
}

proof fn lemma_decimal_len_bound(n: nat, d: nat)
    requires
        d >= 1,
        n < pow10(d),
    ensures
        decimal(n).len() <= d,
    decreases n,
{
    if n >= 10 {
        if d == 1 {
            assert(pow10(1) == 10) by {
                reveal_with_fuel(pow10, 2);
            }
        }
        assert(d >= 2);
        assert(pow10(d) == 10 * pow10((d - 1) as nat));
        assert(n / 10 < pow10((d - 1) as nat)) by (nonlinear_arith)
            requires
                n < pow10(d),
                pow10(d) == 10 * pow10((d - 1) as nat),
        {}
        lemma_decimal_len_bound(n / 10, (d - 1) as nat);
    }
}

pub open spec fn pow10(d: nat) -> nat
    decreases d,
{
    if d == 0 {
        1
    } else {
        10 * pow10((d - 1) as nat)
    }
}

impl printbuf {
    pub open spec fn wf(&self) -> bool {
        self.pos as nat <= self.buf@.len()
    }

    /// The text held by the buffer.
    pub open spec fn text(&self) -> Seq<u8> {
        self.buf@.subrange(0, self.pos as int)
    }

    /// An empty buffer, marked as owning heap storage.
    pub fn new() -> (r: printbuf)
        ensures
            r.wf(),
            r.pos == 0,
            r.text() == Seq::<u8>::empty(),
            r.heap_allocated,
            !r.allocation_failure,
            r.indent == 0,
            r.nr_tabstops == 0,
            r.cur_tabstop == 0,
    {
        let mut buf = printbuf::default();
        buf.set_heap_allocated(true);
        buf
    }

    pub fn set_heap_allocated(&mut self, v: bool)
        ensures
            *final(self) == (printbuf { heap_allocated: v, ..*old(self) }),
    {
        self.heap_allocated = v;
    }

    pub fn set_allocation_failure(&mut self, v: bool)
        ensures
            *final(self) == (printbuf { allocation_failure: v, ..*old(self) }),
    {
        self.allocation_failure = v;
    }

    /// Appends one byte; when the text is at its largest length, nothing is
    /// stored and the allocation failure flag is set instead.
    pub fn prt_char(&mut self, c: u8)
        requires
            old(self).wf(),
        ensures
            final(self).wf(),
            old(self).pos < u32::MAX ==> final(self).text() == old(self).text().push(c),
            old(self).pos < u32::MAX ==> final(self).pos == old(self).pos + 1,
            old(self).pos < u32::MAX ==> final(self).allocation_failure
                == old(self).allocation_failure,
            old(self).pos == u32::MAX ==> final(self).text() == old(self).text()
                && final(self).allocation_failure,
            final(self).indent == old(self).indent,
            final(self).nr_tabstops == old(self).nr_tabstops,
            final(self).cur_tabstop == old(self).cur_tabstop,
            final(self).heap_allocated == old(self).heap_allocated,
    {
        if self.pos == u32::MAX {
            self.allocation_failure = true;
            return ;
        }
        let at: usize = self.pos as usize;
        if at < self.buf.len() {
            self.buf.set(at, c);
        } else {
            self.buf.push(c);
        }
        self.pos = self.pos + 1;
        assert(self.text() =~= old(self).text().push(c));
    }

    /// Appends bytes, as long as the text stays within its largest length.
    pub fn prt_bytes(&mut self, s: &[u8])
        requires
            old(self).wf(),
            old(self).pos + s@.len() <= u32::MAX,
        ensures
            final(self).wf(),
            final(self).text() == old(self).text() + s@,
            final(self).allocation_failure == old(self).allocation_failure,
            final(self).indent == old(self).indent,
            final(self).nr_tabstops == old(self).nr_tabstops,
            final(self).cur_tabstop == old(self).cur_tabstop,
            final(self).heap_allocated == old(self).heap_allocated,
    {
        let mut i: usize = 0;
        while i < s.len()
            invariant
                self.wf(),
                i <= s@.len(),
                old(self).pos + s@.len() <= u32::MAX,
                self.pos == old(self).pos + i,
                self.text() == old(self).text() + s@.subrange(0, i as int),
                self.allocation_failure == old(self).allocation_failure,
                self.indent == old(self).indent,
                self.nr_tabstops == old(self).nr_tabstops,
                self.cur_tabstop == old(self).cur_tabstop,
                self.heap_allocated == old(self).heap_allocated,
            decreases s@.len() - i,
        {
            assert(self.pos < u32::MAX);
            self.prt_char(s[i]);
            assert(s@.subrange(0, i + 1) =~= s@.subrange(0, i as int).push(s@[i as int]));
            i = i + 1;
        }
        assert(s@.subrange(0, s@.len() as int) =~= s@);
    }

    /// Appends `n` in decimal.
    pub fn prt_u64(&mut self, n: u64)
        requires
            old(self).wf(),
            old(self).pos + 20 <= u32::MAX,
        ensures
            final(self).wf(),
            final(self).text() == old(self).text() + decimal(n as nat),
            final(self).pos <= old(self).pos + 20,
            final(self).allocation_failure == old(self).allocation_failure,
            final(self).indent == old(self).indent,
            final(self).nr_tabstops == old(self).nr_tabstops,
            final(self).cur_tabstop == old(self).cur_tabstop,
            final(self).heap_allocated == old(self).heap_allocated,
        decreases n,
    {
        proof {
            lemma_decimal_len(n as nat);
        }
        if n >= 10 {
            self.prt_u64(n / 10);
            proof {
                lemma_decimal_len((n / 10) as nat);
            }
        }
        let digit: u8 = (n % 10) as u8 + 48;
        self.prt_char(digit);
        assert(self.text() =~= old(self).text() + decimal(n as nat));
    }
}

impl Default for printbuf {
    fn default() -> (r: printbuf)
        ensures
            r.wf(),
            r.buf@.len() == 0,
            r.pos == 0,
            r.indent == 0,
            r.nr_tabstops == 0,
            r.cur_tabstop == 0,
            !r.allocation_failure,
            !r.heap_allocated,
    {
        printbuf {
            buf: Vec::new(),
            pos: 0,
            indent: 0,
            nr_tabstops: 0,
            cur_tabstop: 0,
            allocation_failure: false,
            heap_allocated: false,
        }
    }
}

/// A text buffer that renderers write into and readers copy out of.
pub struct Printbuf {
    raw: printbuf,
}

impl View for Printbuf {
    type V = Seq<u8>;

    closed spec fn view(&self) -> Seq<u8> {
        self.raw.text()
    }
}

impl Printbuf {
    pub closed spec fn wf(&self) -> bool {
        self.raw.wf()
    }

    /// The raw buffer inside.
    pub closed spec fn inner(&self) -> printbuf {
        self.raw
    }

    /// An empty buffer.
    pub fn new() -> (r: Printbuf)
        ensures
            r.wf(),
            r@ == Seq::<u8>::empty(),
            !r.inner().allocation_failure,
            r.inner().indent == 0,
            r.inner().nr_tabstops == 0,
            r.inner().cur_tabstop == 0,
            r.inner().heap_allocated,
    {
        let mut raw = printbuf::default();
        raw.set_heap_allocated(true);
        Printbuf { raw }
    }

    /// The raw buffer, for code that writes into it directly.
    pub fn raw_mut(&mut self) -> (r: &mut printbuf)
        ensures
            *r == old(self).inner(),
            final(self).inner() == *final(r),
            r.wf() == old(self).wf(),
            r.text() == old(self)@,
            final(self).wf() == final(r).wf(),
            final(self)@ == final(r).text(),
    {
        &mut self.raw
    }

    /// Length of the text.
    pub fn len(&self) -> (r: u32)
        requires
            self.wf(),
        ensures
            r as nat == self@.len(),
    {
        self.raw.pos
    }

    /// The text as a byte slice.
    pub fn as_slice(&self) -> (r: &[u8])
        requires
            self.wf(),
        ensures
            r@ == self@,
    {
        let n: usize = self.raw.pos as usize;
        &self.raw.buf.as_slice()[0..n]
    }

    /// Empties the text and clears the formatting state; storage is kept.
    pub fn reset(&mut self)
        requires
            old(self).wf(),
        ensures
            final(self).wf(),
            final(self)@ == Seq::<u8>::empty(),
            final(self).inner().buf == old(self).inner().buf,
            !final(self).inner().allocation_failure,
            final(self).inner().indent == 0,
            final(self).inner().nr_tabstops == 0,
            final(self).inner().cur_tabstop == 0,
            final(self).inner().heap_allocated == old(self).inner().heap_allocated,
    {
        self.raw.pos = 0;
        self.raw.set_allocation_failure(false);
        self.raw.indent = 0;
        self.raw.nr_tabstops = 0;
        self.raw.cur_tabstop = 0;
        assert(self@ =~= Seq::<u8>::empty());
    }

    /// Ends the current line: appends a line terminator and returns to the
    /// first tab stop.
    pub fn newline(&mut self)
        requires
            old(self).wf(),
        ensures
            final(self).wf(),
            old(self)@.len() < u32::MAX ==> final(self)@ == old(self)@.push(10u8),
            old(self)@.len() < u32::MAX ==> final(self).inner().allocation_failure
                == old(self).inner().allocation_failure,
            old(self)@.len() == u32::MAX ==> final(self)@ == old(self)@
                && final(self).inner().allocation_failure,
            final(self).inner().cur_tabstop == 0,
            final(self).inner().indent == old(self).inner().indent,
    {
        self.raw.prt_char(10u8);
        self.raw.cur_tabstop = 0;
    }
}

} // verus!
