//! Block reader: turns block/fragment addressing into validated byte-range
//! reads of the backend. Every read is checked against the volume size the
//! superblock declares, so a corrupt pointer fails fast instead of reading
//! adjacent unrelated data.

use vstd::prelude::*;

use crate::backend::Backend;
use crate::error::UfsError;
use crate::superblock::Superblock;

verus! {

/// A backend paired with the decoded volume geometry.
#[derive(Debug)]
pub struct BlockReader {
    pub backend: Backend,
    pub sb: Superblock,
}

impl BlockReader {
    /// The bytes of the underlying extent.
    pub open spec fn img(&self) -> Seq<u8> {
        self.backend@
    }

    /// The geometry the reads are validated against.
    pub open spec fn sb(&self) -> Superblock {
        self.sb
    }

    /// The reader is usable: sane geometry, and the declared volume lies
    /// within the extent.
    pub open spec fn wf(&self) -> bool {
        &&& self.sb().geo_ok()
        &&& self.sb().vol_bytes() <= self.img().len()
        &&& self.sb().vol_bytes() <= 0xffff_ffff_ffff_ffff
    }

    pub fn new(backend: Backend, sb: Superblock) -> (r: BlockReader)
        ensures
            r.img() == backend@,
            r.sb() == sb,
    {
        BlockReader { backend, sb }
    }

    /// Reads `len` bytes at byte offset `off`; fails exactly when the range
    /// leaves the declared volume.
    pub fn read_bytes(&self, off: u64, len: u64) -> (r: Result<Vec<u8>, UfsError>)
        requires
            self.wf(),
        ensures
            r is Ok <==> off + len <= self.sb().vol_bytes(),
            r matches Ok(d) ==> d@ == self.img().subrange(off as int, off as int + len as int),
            r matches Err(e) ==> e == UfsError::Io,
    {
        let vbytes: u64 = self.sb.vol_frags * self.sb.fsize;
        if off > vbytes || len > vbytes - off {
            return Err(UfsError::Io);
        }
        match self.backend.read(off, len) {
            Ok(d) => Ok(d),
            Err(_) => Err(UfsError::Io),
        }
    }

    /// Reads `len` bytes starting `start` bytes into fragment `frag`; fails
    /// exactly when the range leaves the declared volume.
    pub fn read_frag_range(&self, frag: u64, start: u64, len: u64) -> (r: Result<
        Vec<u8>,
        UfsError,
    >)
        requires
            self.wf(),
            start + len <= self.sb().bsize,
        ensures
            r is Ok <==> frag * self.sb().fsize + start + len <= self.sb().vol_bytes(),
            r matches Ok(d) ==> d@ == self.img().subrange(
                frag * self.sb().fsize + start,
                frag * self.sb().fsize + start + len,
            ),
            r matches Err(e) ==> e == UfsError::Io,
    {
        let fsize = self.sb.fsize;
        let vol_frags = self.sb.vol_frags;
        if frag > vol_frags {
            proof {
                assert(frag * fsize >= vol_frags * fsize + fsize) by (nonlinear_arith)
                    requires
                        frag >= vol_frags + 1,
                        fsize >= 0,
                ;
            }
            return Err(UfsError::Io);
        }
        proof {
            assert(frag * fsize <= vol_frags * fsize) by (nonlinear_arith)
                requires
                    frag <= vol_frags,
                    fsize >= 0,
            ;
        }
        let base: u64 = frag * fsize;
        let vbytes: u64 = vol_frags * fsize;
        if start > vbytes - base {
            return Err(UfsError::Io);
        }
        self.read_bytes(base + start, len)
    }
}

} // verus!
