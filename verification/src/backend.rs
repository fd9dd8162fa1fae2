//! Storage backend: a fixed-size addressable byte extent with bounded-range
//! reads. The surrounding program opens the device or image file and hands
//! its bytes over; everything above reads storage only through this type.

use vstd::prelude::*;

use crate::error::UfsError;

verus! {

/// A byte extent held in memory, owned exclusively by one volume.
#[derive(Debug)]
pub struct Backend {
    bytes: Vec<u8>,
}

impl View for Backend {
    type V = Seq<u8>;

    closed spec fn view(&self) -> Seq<u8> {
        self.bytes@
    }
}

impl Backend {
    pub fn new(bytes: Vec<u8>) -> (r: Backend)
        ensures
            r@ == bytes@,
    {
        Backend { bytes }
    }

    /// Borrows the whole extent; superblock candidates are decoded straight
    /// from it, before any volume geometry is known.
    pub fn bytes_ref(&self) -> (r: &Vec<u8>)
        ensures
            r@ == self@,
    {
        &self.bytes
    }

    pub fn len(&self) -> (r: usize)
        ensures
            r == self@.len(),
    {
        self.bytes.len()
    }

    /// Copies `len` bytes starting at byte offset `off` out of the extent.
    /// Fails exactly when the requested range does not lie within it.
    pub fn read(&self, off: u64, len: u64) -> (r: Result<Vec<u8>, UfsError>)
        ensures
            r is Ok <==> off + len <= self@.len(),
            r matches Ok(d) ==> d@ == self@.subrange(off as int, off as int + len as int),
            r matches Err(e) ==> e == UfsError::Io,
    {
        if off > self.bytes.len() as u64 || len > self.bytes.len() as u64 - off {
            return Err(UfsError::Io);
        }
        let start: usize = off as usize;
        let n: usize = len as usize;
        let mut out: Vec<u8> = Vec::new();
        let mut k: usize = 0;
        while k < n
            invariant
                k <= n,
                start + n <= self.bytes.len(),
                out@ == self@.subrange(start as int, start as int + k as int),
            decreases n - k,
        {
            out.push(self.bytes[start + k]);
            k = k + 1;
            proof {
                assert(out@ =~= self@.subrange(start as int, start as int + k as int));
            }
        }
        Ok(out)
    }
}

} // verus!
