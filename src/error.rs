//! Error values: the codes the btree engine reports and the errno values
//! handed to readers.

use vstd::prelude::*;

verus! {

/// First code of the engine's private range; codes below it are plain errno values.
pub const BCH_ERR_START: u32 = 2048;

/// Private code: the transaction hit a conflict and must be restarted.
pub const BCH_ERR_TRANSACTION_RESTART: u32 = 2048;

/// Largest code that an error pointer can carry.
pub const MAX_ERRNO: u32 = 4095;

pub const EIO: i32 = 5;

pub const ENOMEM: i32 = 12;

pub const EFAULT: i32 = 14;

/// An error code reported by the btree engine.
#[derive(Clone, Copy, Debug, PartialEq, Eq, Structural)]
pub struct BchErrcode {
    pub code: u32,
}

/// An error as handed to a reader: a positive errno value.
#[derive(Clone, Copy, Debug, PartialEq, Eq, Structural)]
pub struct Error {
    pub errno: i32,
}

/// The errno that an engine code stands for: a plain errno is kept, a private
/// code is reported as an I/O error.
pub open spec fn errno_of(e: BchErrcode) -> i32 {
    if e.code < BCH_ERR_START {
        e.code as i32
    } else {
        EIO
    }
}

impl BchErrcode {
    /// Whether this code asks for a transaction restart.
    pub fn is_restart(&self) -> (r: bool)
        ensures
            r == (self.code == BCH_ERR_TRANSACTION_RESTART),
    {
        self.code == BCH_ERR_TRANSACTION_RESTART
    }
}

impl Error {
    /// The error for an engine code.
    pub fn from_bch(e: BchErrcode) -> (r: Error)
        ensures
            r.errno == errno_of(e),
    {
        if e.code < BCH_ERR_START {
            Error { errno: e.code as i32 }
        } else {
            Error { errno: EIO }
        }
    }

    /// The value a read call returns for this error: the negated errno.
    pub fn to_errno(&self) -> (r: i32)
        requires
            self.errno > i32::MIN,
        ensures
            r == -self.errno,
    {
        -self.errno
    }
}

/// The result of decoding an engine pointer: the address itself, or the error
/// code carried in the top 4095 values of the address space.
pub open spec fn errptr_decode(addr: usize) -> Result<usize, BchErrcode> {
    if addr > usize::MAX - MAX_ERRNO {
        Err(BchErrcode { code: (usize::MAX - addr + 1) as u32 })
    } else {
        Ok(addr)
    }
}

/// Splits an engine pointer into a valid address or the error it encodes.
/// An address above `usize::MAX - 4095` is the negation of an error code.
pub fn errptr_to_result_c(addr: usize) -> (r: Result<usize, BchErrcode>)
    ensures
        r == errptr_decode(addr),
        r is Err ==> 1 <= r->Err_0.code <= MAX_ERRNO,
{
    let max_err: usize = usize::MAX - 4095;
    if addr > max_err {
        let code: usize = usize::MAX - addr + 1;
        Err(BchErrcode { code: code as u32 })
    } else {
        Ok(addr)
    }
}

/// Encodes an error code as an engine pointer, the inverse of the decoding.
pub fn errcode_to_ptr(e: BchErrcode) -> (r: usize)
    requires
        1 <= e.code <= MAX_ERRNO,
    ensures
        errptr_decode(r) == Err::<usize, BchErrcode>(e),
{
    usize::MAX - (e.code as usize) + 1
}

} // verus!
