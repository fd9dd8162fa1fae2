//! Volume facade: the single entry point of the decoder.
//!
//! A volume is either fully open — superblock located, validated and
//! decoded, geometry derived — or it does not exist; there is no partial or
//! degraded state. All access operations route through the address resolver
//! and the block reader and return typed results.

use vstd::prelude::*;

use vstd::arithmetic::div_mod::{
    lemma_div_is_ordered, lemma_fundamental_div_mod, lemma_fundamental_div_mod_converse,
    lemma_multiply_divide_lt,
};
use vstd::arithmetic::mul::lemma_mul_inequality;

use crate::backend::Backend;
use crate::blockreader::BlockReader;
use crate::bytes::bytes_equal;
use crate::dir::{
    dir_blen, dir_block_bytes, dir_blocks_entries, dir_entries, dir_nblk, find_entry,
    first_sep_clipped, lemma_blocks_no_zero, lemma_first_sep_value, parse_block_entries,
    parse_dir_block, resolve_path, DirEntry,
};
use crate::error::UfsError;
use crate::inode::{
    ino_atime, ino_ctime, ino_gid, ino_inline_off, ino_mode, ino_mtime, ino_nlink, ino_size,
    ino_uid, inline_threshold, kind_from_mode, kind_of_mode, decode_inode, Inode, InodeAttr,
    InodeNum, InodeType,
};
use crate::resolve::{bmap, blk_hi, file_byte, lbn_read_ok, read_ok, BlockPtr};
use crate::superblock::{
    decode_superblock, sb_off, sb_ok, sb_parse, Superblock, SBLOCK_LEGACY, SBLOCK_MODERN,
};

verus! {

/// Volume-wide figures exposed to consumers.
#[derive(Clone, Copy, Debug, PartialEq, Eq, Structural)]
pub struct Info {
    /// True when the volume uses the newer, 64-bit record width.
    pub ufs2: bool,
    /// Block size in bytes.
    pub blocksize: u64,
    /// Fragment size in bytes.
    pub fragsize: u64,
    /// Total number of inodes.
    pub inode_count: u64,
    /// Number of cylinder groups.
    pub group_count: u64,
    /// Declared volume size in fragments.
    pub volume_frags: u64,
}

/// An open, read-only UFS volume.
#[derive(Debug)]
pub struct Ufs {
    pub br: BlockReader,
}

/// Number of bytes a read of a file of `size` bytes returns, starting at
/// offset `off` into a buffer of `cap` bytes: up to `cap`, never past the
/// declared size.
pub open spec fn read_len(off: int, size: int, cap: int) -> int {
    if off >= size {
        0
    } else if size - off < cap {
        size - off
    } else {
        cap
    }
}

impl Ufs {
    /// The volume image.
    pub open spec fn img(&self) -> Seq<u8> {
        self.br.img()
    }

    /// The decoded superblock.
    pub open spec fn geo(&self) -> Superblock {
        self.br.sb
    }

    /// Validity of an open volume: sane geometry, the declared volume within
    /// the image, and every cylinder group's inode table within the volume.
    pub open spec fn wf(&self) -> bool {
        &&& self.br.wf()
        &&& self.geo().tables_ok()
    }

    /// An inode number that resolves to a record: strictly within
    /// [1, inode count). Inode 0 is the reserved free marker.
    pub open spec fn valid_inr(&self, inr: InodeNum) -> bool {
        1 <= inr.0 < self.geo().icount
    }

    /// Opens a volume over `backend`. The explicit flag selects which of the
    /// two historical superblock offsets is decoded, since the layouts are
    /// not self-distinguishing; `readonly` is informational — the engine
    /// never writes. Succeeds exactly when a valid superblock stands at the
    /// selected offset.
    pub fn open(backend: Backend, readonly: bool, old_superblock: bool) -> (r: Result<
        Ufs,
        UfsError,
    >)
        ensures
            r is Ok <==> sb_ok(backend@, sb_off(old_superblock)),
            r matches Ok(u) ==> u.wf() && u.img() == backend@ && u.geo() == sb_parse(
                backend@,
                sb_off(old_superblock),
            ),
            r matches Err(e) ==> e == UfsError::Corrupt,
    {
        let _ = readonly;
        let off: usize = if old_superblock {
            SBLOCK_LEGACY
        } else {
            SBLOCK_MODERN
        };
        let sb = match decode_superblock(backend.bytes_ref(), off) {
            Ok(sb) => sb,
            Err(e) => {
                return Err(e);
            },
        };
        let total = backend.len();
        assert(sb.vol_bytes() <= total <= u64::MAX);
        Ok(Ufs { br: BlockReader::new(backend, sb) })
    }

    /// The volume-wide figures.
    pub fn info(&self) -> (r: Info)
        requires
            self.wf(),
        ensures
            r.ufs2 == self.geo().ufs2,
            r.blocksize == self.geo().bsize,
            r.fragsize == self.geo().fsize,
            r.inode_count == self.geo().icount,
            r.group_count == self.geo().ncg,
            r.volume_frags == self.geo().vol_frags,
    {
        Info {
            ufs2: self.br.sb.ufs2,
            blocksize: self.br.sb.bsize,
            fragsize: self.br.sb.fsize,
            inode_count: self.br.sb.icount,
            group_count: self.br.sb.ncg,
            volume_frags: self.br.sb.vol_frags,
        }
    }

    /// Byte offset of the record of a valid inode `inr`: cylinder group,
    /// then index within the group's inode table. The open-time validation
    /// guarantees the whole record lies within the volume.
    fn rec_off(&self, inr: InodeNum) -> (o: u64)
        requires
            self.wf(),
            self.valid_inr(inr),
        ensures
            o as int == self.geo().ino_off(inr.0),
            o + self.geo().isz() <= self.geo().vol_bytes(),
    {
        let sb = &self.br.sb;
        let g: u64 = inr.0 / sb.ipg;
        let idx: u64 = inr.0 % sb.ipg;
        proof {
            assert(sb.icount == sb.ncg * sb.ipg);
            assert(sb.ncg * sb.ipg == sb.ipg * sb.ncg) by (nonlinear_arith);
            lemma_multiply_divide_lt(inr.0 as int, sb.ipg as int, sb.ncg as int);
            assert(g < sb.ncg);
        }
        let cm: u64 = sb.cgmask;
        let t: u64 = g & !cm;
        assert(t <= g) by (bit_vector)
            requires
                t == g & !cm,
        ;
        let isz: u64 = if sb.ufs2 {
            256
        } else {
            128
        };
        proof {
            assert(sb.cgimin(g) * sb.fsize + sb.ipg * sb.isz() <= sb.vol_bytes());
            assert(sb.fpg * g + sb.cgoffset * t + sb.iblkno == sb.cgimin(g));
            assert(sb.fpg * g >= 0 && sb.cgoffset * t >= 0 && sb.ipg * sb.isz() >= 0 && sb.cgimin(
                g,
            ) <= sb.cgimin(g) * sb.fsize && idx * isz + isz <= sb.ipg * sb.isz())
                by (nonlinear_arith)
                requires
                    sb.fpg >= 0,
                    g >= 0,
                    sb.cgoffset >= 0,
                    t >= 0,
                    sb.iblkno >= 0,
                    sb.fsize >= 1,
                    isz == sb.isz(),
                    sb.ipg >= 0,
                    isz >= 0,
                    0 <= idx < sb.ipg,
                    sb.cgimin(g) == sb.fpg * g + sb.cgoffset * t + sb.iblkno,
            ;
        }
        let start: u64 = sb.fpg * g + sb.cgoffset * t + sb.iblkno;
        proof {
            assert(start * sb.fsize == sb.cgimin(g) * sb.fsize);
        }
        let o: u64 = start * sb.fsize + idx * isz;
        o
    }

    /// Locates, reads and decodes the record of inode `inr`. Succeeds for
    /// exactly the valid inode numbers: open-time validation placed every
    /// inode table inside the volume.
    pub(crate) fn read_inode(&self, inr: InodeNum) -> (r: Result<Inode, UfsError>)
        requires
            self.wf(),
        ensures
            r is Ok <==> self.valid_inr(inr),
            r matches Ok(ino) ==> ino.matches(
                self.img(),
                self.geo().ino_off(inr.0),
                self.geo().ufs2,
            ),
            r matches Err(e) ==> e == UfsError::NotFound,
    {
        let sb = &self.br.sb;
        if inr.0 == 0 || inr.0 >= sb.icount {
            return Err(UfsError::NotFound);
        }
        let isz: u64 = if sb.ufs2 {
            256
        } else {
            128
        };
        let o = self.rec_off(inr);
        let rec = match self.br.read_bytes(o, isz) {
            Ok(rec) => rec,
            Err(_) => {
                return vstd::pervasive::unreached();
            },
        };
        let ino = decode_inode(&rec, sb.ufs2);
        proof {
            let base = self.geo().ino_off(inr.0);
            assert(base == o);
            assert forall|k: int| 0 <= k < isz implies rec@[k] == self.img()[o + k] by {}
            assert forall|i: int| 0 <= i < 12 implies #[trigger] ino.db@[i] as nat
                == crate::inode::ino_db(self.img(), base, sb.ufs2, i) by {
                assert(ino.db@[i] as nat == crate::inode::ino_db(rec@, 0, sb.ufs2, i));
            }
            assert forall|i: int| 0 <= i < 3 implies #[trigger] ino.ib@[i] as nat
                == crate::inode::ino_ib(self.img(), base, sb.ufs2, i) by {
                assert(ino.ib@[i] as nat == crate::inode::ino_ib(rec@, 0, sb.ufs2, i));
            }
        }
        Ok(ino)
    }

    /// Fills `buf` from the start with file content beginning at byte
    /// offset `off`, resolving each logical block in turn, reading real data
    /// for resolved blocks and zero-filling holes, and stopping at the
    /// inode's declared size. Returns the count of bytes filled; bytes of
    /// `buf` beyond that count keep their old values. Succeeds exactly when
    /// every logical block the read touches resolves and lies within the
    /// volume; it never returns partial data silently.
    pub fn inode_read(&self, inr: InodeNum, off: u64, buf: &mut Vec<u8>) -> (r: Result<
        u64,
        UfsError,
    >)
        requires
            self.wf(),
        ensures
            final(buf)@.len() == old(buf)@.len(),
            !self.valid_inr(inr) ==> r == Err::<u64, UfsError>(UfsError::NotFound) && final(buf)@
                == old(buf)@,
            self.valid_inr(inr) ==> (r is Ok <==> (read_len(
                off as int,
                ino_size(self.img(), self.geo().ino_off(inr.0), self.geo().ufs2) as int,
                old(buf)@.len() as int,
            ) == 0 || read_ok(
                self.img(),
                self.geo(),
                inr.0,
                off as int,
                read_len(
                    off as int,
                    ino_size(self.img(), self.geo().ino_off(inr.0), self.geo().ufs2) as int,
                    old(buf)@.len() as int,
                ),
            ))),
            r matches Ok(cnt) ==> self.valid_inr(inr) ==> cnt == read_len(
                off as int,
                ino_size(self.img(), self.geo().ino_off(inr.0), self.geo().ufs2) as int,
                old(buf)@.len() as int,
            ),
            r matches Ok(cnt) ==> self.valid_inr(inr) ==> forall|j: int|
                0 <= j < cnt ==> final(buf)@[j] == file_byte(self.img(), self.geo(), inr.0, off + j),
            r matches Ok(cnt) ==> self.valid_inr(inr) ==> forall|j: int|
                cnt <= j < final(buf)@.len() ==> final(buf)@[j] == old(buf)@[j],
    {
        let ino = match self.read_inode(inr) {
            Ok(ino) => ino,
            Err(e) => {
                return Err(e);
            },
        };
        let size = ino.size;
        if off >= size {
            return Ok(0);
        }
        let avail: u64 = size - off;
        let cap: u64 = buf.len() as u64;
        let n: u64 = if avail < cap {
            avail
        } else {
            cap
        };
        if n == 0 {
            return Ok(0);
        }
        let mut i: u64 = 0;
        while i < n
            invariant
                self.wf(),
                ino.matches(self.img(), self.geo().ino_off(inr.0), self.geo().ufs2),
                1 <= inr.0 < self.geo().icount,
                ino.size as nat == ino_size(self.img(), self.geo().ino_off(inr.0), self.geo().ufs2),
                n as int == read_len(off as int, ino.size as int, old(buf)@.len() as int),
                off + n <= ino.size,
                0 < n <= old(buf)@.len(),
                n <= usize::MAX,
                i <= n,
                buf@.len() == old(buf)@.len(),
                forall|j: int|
                    0 <= j < i ==> buf@[j] == file_byte(self.img(), self.geo(), inr.0, off + j),
                forall|j: int| i <= j < buf@.len() ==> buf@[j] == old(buf)@[j],
                i > 0 ==> forall|l: int|
                    off as int / self.geo().bsize as int <= l <= (off + i - 1)
                        / self.geo().bsize as int ==> lbn_read_ok(
                        self.img(),
                        self.geo(),
                        inr.0,
                        off as int,
                        n as int,
                        l,
                    ),
            decreases n - i,
        {
            let bsize: u64 = self.br.sb.bsize;
            let pos: u64 = off + i;
            let lbn: u64 = pos / bsize;
            let inoff: u64 = pos % bsize;
            let rem: u64 = n - i;
            let chunk0: u64 = bsize - inoff;
            let chunk: u64 = if chunk0 < rem {
                chunk0
            } else {
                rem
            };
            proof {
                lemma_fundamental_div_mod(pos as int, bsize as int);
                assert(bsize as int * lbn as int == lbn as int * bsize as int && (lbn as int + 1)
                    * bsize as int == lbn as int * bsize as int + bsize as int)
                    by (nonlinear_arith);
                lemma_div_is_ordered(off as int, pos as int, bsize as int);
                lemma_div_is_ordered(pos as int, off + n - 1, bsize as int);
                assert(blk_hi(off as int, n as int, bsize as int, lbn as int) == inoff + chunk);
            }
            match bmap(&self.br, &ino, inr.0, lbn) {
                Err(e) => {
                    proof {
                        assert(!lbn_read_ok(
                            self.img(),
                            self.geo(),
                            inr.0,
                            off as int,
                            n as int,
                            lbn as int,
                        ));
                    }
                    return Err(e);
                },
                Ok(BlockPtr::Hole) => {
                    let mut k: u64 = 0;
                    while k < chunk
                        invariant
                            k <= chunk,
                            i + chunk <= n <= buf@.len(),
                            n <= usize::MAX,
                            buf@.len() == old(buf)@.len(),
                            forall|j: int|
                                0 <= j < i ==> buf@[j] == file_byte(
                                    self.img(),
                                    self.geo(),
                                    inr.0,
                                    off + j,
                                ),
                            forall|j: int| i + k <= j < buf@.len() ==> buf@[j] == old(buf)@[j],
                            forall|j: int| i <= j < i + k ==> buf@[j] == 0,
                        decreases chunk - k,
                    {
                        buf[(i + k) as usize] = 0;
                        k = k + 1;
                    }
                    proof {
                        assert forall|j: int| i <= j < i + chunk implies buf@[j]
                            == #[trigger] file_byte(self.img(), self.geo(), inr.0, off + j) by {
                            lemma_fundamental_div_mod_converse(
                                off + j,
                                bsize as int,
                                lbn as int,
                                inoff + (j - i),
                            );
                        }
                    }
                },
                Ok(BlockPtr::Frag(f)) => {
                    match self.br.read_frag_range(f, inoff, chunk) {
                        Err(e) => {
                            proof {
                                assert(!lbn_read_ok(
                                    self.img(),
                                    self.geo(),
                                    inr.0,
                                    off as int,
                                    n as int,
                                    lbn as int,
                                ));
                            }
                            return Err(e);
                        },
                        Ok(data) => {
                            let mut k: u64 = 0;
                            while k < chunk
                                invariant
                                    k <= chunk,
                                    i + chunk <= n <= buf@.len(),
                                    n <= usize::MAX,
                                    buf@.len() == old(buf)@.len(),
                                    data@.len() == chunk,
                                    forall|j: int|
                                        0 <= j < i ==> buf@[j] == file_byte(
                                            self.img(),
                                            self.geo(),
                                            inr.0,
                                            off + j,
                                        ),
                                    forall|j: int|
                                        i + k <= j < buf@.len() ==> buf@[j] == old(buf)@[j],
                                    forall|j: int| i <= j < i + k ==> buf@[j] == data@[j - i],
                                decreases chunk - k,
                            {
                                let b = data[k as usize];
                                buf[(i + k) as usize] = b;
                                k = k + 1;
                            }
                            proof {
                                assert forall|j: int| i <= j < i + chunk implies buf@[j]
                                    == #[trigger] file_byte(
                                    self.img(),
                                    self.geo(),
                                    inr.0,
                                    off + j,
                                ) by {
                                    lemma_fundamental_div_mod_converse(
                                        off + j,
                                        bsize as int,
                                        lbn as int,
                                        inoff + (j - i),
                                    );
                                }
                            }
                        },
                    }
                },
            }
            proof {
                let img = self.img();
                let sb = self.geo();
                assert(lbn_read_ok(img, sb, inr.0, off as int, n as int, lbn as int));
                if inoff == 0 {
                    if i > 0 {
                        assert((lbn as int - 1) * bsize as int == lbn as int * bsize as int
                            - bsize as int) by (nonlinear_arith);
                        lemma_fundamental_div_mod_converse(
                            pos - 1,
                            bsize as int,
                            lbn as int - 1,
                            bsize as int - 1,
                        );
                    }
                } else {
                    lemma_fundamental_div_mod_converse(
                        pos - 1,
                        bsize as int,
                        lbn as int,
                        inoff as int - 1,
                    );
                }
                lemma_fundamental_div_mod_converse(
                    pos + chunk - 1,
                    bsize as int,
                    lbn as int,
                    inoff + chunk - 1,
                );
                assert forall|l: int|
                    off as int / sb.bsize as int <= l <= (off + i + chunk - 1)
                        / sb.bsize as int implies lbn_read_ok(
                    img,
                    sb,
                    inr.0,
                    off as int,
                    n as int,
                    l,
                ) by {}
            }
            i = i + chunk;
        }
        proof {
            assert(read_ok(self.img(), self.geo(), inr.0, off as int, n as int));
        }
        Ok(n)
    }

    /// Decodes the directory at `inr` and returns its live entries — "."
    /// and ".." included — in on-disk order. Deleted slots (inode number
    /// zero) never surface. Fails with `InvalidInput` when `inr` is no
    /// directory, and with `Corrupt` when a record overruns its block.
    pub fn dir_iter(&self, inr: InodeNum) -> (r: Result<Vec<DirEntry>, UfsError>)
        requires
            self.wf(),
        ensures
            r is Ok <==> dir_entries(self.img(), self.geo(), inr.0) is Ok,
            r matches Ok(v) ==> v@.len() == dir_entries(self.img(), self.geo(), inr.0)->Ok_0.len(),
            r matches Ok(v) ==> forall|q: int|
                0 <= q < v@.len() ==> v@[q]@ == dir_entries(self.img(), self.geo(), inr.0)->Ok_0[q],
            r matches Ok(v) ==> forall|q: int| 0 <= q < v@.len() ==> (#[trigger] v@[q]@).0 != 0,
            r matches Err(e) ==> dir_entries(self.img(), self.geo(), inr.0) == Err::<
                Seq<(u64, InodeType, Seq<u8>)>,
                UfsError,
            >(e),
    {
        let ghost img = self.img();
        let ghost geo = self.geo();
        let ino = match self.read_inode(inr) {
            Ok(v) => v,
            Err(e) => {
                return Err(e);
            },
        };
        if kind_of_mode(ino.mode) != InodeType::Directory {
            return Err(UfsError::InvalidInput);
        }
        let bsize: u64 = self.br.sb.bsize;
        let vbytes: u64 = self.br.sb.vol_frags * self.br.sb.fsize;
        let size: u64 = ino.size;
        if size > vbytes {
            return Err(UfsError::Corrupt);
        }
        let nblk: u64 = if size == 0 {
            0
        } else {
            (size - 1) / bsize + 1
        };
        let mut acc: Vec<DirEntry> = Vec::new();
        let ghost mut done: Seq<(u64, InodeType, Seq<u8>)> = Seq::empty();
        let mut lbn: u64 = 0;
        while lbn < nblk
            invariant
                self.wf(),
                img == self.img(),
                geo == self.geo(),
                ino.matches(img, geo.ino_off(inr.0), geo.ufs2),
                1 <= inr.0 < geo.icount,
                size == ino.size,
                size as nat == ino_size(img, geo.ino_off(inr.0), geo.ufs2),
                kind_from_mode(ino_mode(img, geo.ino_off(inr.0))) == InodeType::Directory,
                bsize == geo.bsize,
                size <= geo.vol_bytes(),
                nblk as int == dir_nblk(size as int, bsize as int),
                lbn <= nblk,
                acc@.len() == done.len(),
                forall|q: int| 0 <= q < done.len() ==> acc@[q]@ == done[q],
                dir_blocks_entries(img, geo, inr.0, size as int, lbn as int, nblk as int) matches Ok(
                    rest,
                ) ==> dir_blocks_entries(img, geo, inr.0, size as int, 0, nblk as int) == Ok::<
                    _,
                    UfsError,
                >(done + rest),
                dir_blocks_entries(img, geo, inr.0, size as int, lbn as int, nblk as int) matches Err(
                    e,
                ) ==> dir_blocks_entries(img, geo, inr.0, size as int, 0, nblk as int) == Err::<
                    Seq<(u64, InodeType, Seq<u8>)>,
                    UfsError,
                >(e),
            decreases nblk - lbn,
        {
            proof {
                lemma_fundamental_div_mod(size as int - 1, bsize as int);
                assert(bsize as int * ((size as int - 1) / bsize as int) == ((size as int - 1)
                    / bsize as int) * bsize as int) by (nonlinear_arith);
                lemma_mul_inequality(
                    lbn as int,
                    (size as int - 1) / bsize as int,
                    bsize as int,
                );
            }
            let off_in: u64 = lbn * bsize;
            let rem_b: u64 = size - off_in;
            let blen: u64 = if rem_b < bsize {
                rem_b
            } else {
                bsize
            };
            proof {
                assert(blen as int == dir_blen(size as int, bsize as int, lbn as int));
            }
            let bytes: Vec<u8> = match bmap(&self.br, &ino, inr.0, lbn) {
                Err(e) => {
                    return Err(e);
                },
                Ok(BlockPtr::Hole) => {
                    let mut z: Vec<u8> = Vec::new();
                    let mut k: u64 = 0;
                    while k < blen
                        invariant
                            k <= blen,
                            z@.len() == k,
                            forall|x: int| 0 <= x < k ==> z@[x] == 0u8,
                        decreases blen - k,
                    {
                        z.push(0u8);
                        k = k + 1;
                    }
                    proof {
                        assert(z@ =~= Seq::new(blen as nat, |x: int| 0u8));
                    }
                    z
                },
                Ok(BlockPtr::Frag(f)) => {
                    match self.br.read_frag_range(f, 0, blen) {
                        Ok(d) => d,
                        Err(e) => {
                            return Err(e);
                        },
                    }
                },
            };
            proof {
                assert(dir_block_bytes(img, geo, inr.0, size as int, lbn as int) == Ok::<
                    _,
                    UfsError,
                >(bytes@));
            }
            let mut parsed = match parse_block_entries(&bytes, 0) {
                Ok(v) => v,
                Err(e) => {
                    return Err(e);
                },
            };
            let ghost es = parse_dir_block(bytes@, 0)->Some_0;
            let ghost acc_before = acc@;
            acc.append(&mut parsed);
            proof {
                let done_old = done;
                done = done + es;
                assert forall|q: int| 0 <= q < done.len() implies acc@[q]@ == done[q] by {
                    if q < done_old.len() {
                        assert(acc@[q] == acc_before[q]);
                    }
                }
                let tail = dir_blocks_entries(
                    img,
                    geo,
                    inr.0,
                    size as int,
                    lbn as int + 1,
                    nblk as int,
                );
                if tail is Ok {
                    let rest2 = tail->Ok_0;
                    assert((done_old + (es + rest2)) =~= (done + rest2));
                }
            }
            lbn = lbn + 1;
        }
        proof {
            assert(dir_blocks_entries(img, geo, inr.0, size as int, nblk as int, nblk as int)
                == Ok::<_, UfsError>(Seq::<(u64, InodeType, Seq<u8>)>::empty()));
            assert(done + Seq::<(u64, InodeType, Seq<u8>)>::empty() =~= done);
            assert(dir_entries(img, geo, inr.0) == Ok::<_, UfsError>(done));
            lemma_blocks_no_zero(img, geo, inr.0, size as int, 0, nblk as int);
            assert forall|q: int| 0 <= q < done.len() implies done[q].0 != 0 by {
                assert(dir_blocks_entries(img, geo, inr.0, size as int, 0, nblk as int)->Ok_0[q].0
                    != 0);
            }
            assert forall|q: int| 0 <= q < acc@.len() implies (#[trigger] acc@[q]@).0 != 0 by {
                assert(acc@[q]@ == done[q]);
                assert(done[q].0 != 0);
            }
        }
        Ok(acc)
    }

    /// Verifies that `inr` denotes a directory, then scans its entries in
    /// on-disk order, comparing raw name bytes; returns the first exact
    /// match's inode number, or `NotFound` when no entry matches.
    pub fn dir_lookup(&self, inr: InodeNum, name: &[u8]) -> (r: Result<InodeNum, UfsError>)
        requires
            self.wf(),
        ensures
            dir_entries(self.img(), self.geo(), inr.0) matches Err(e) ==> r == Err::<
                InodeNum,
                UfsError,
            >(e),
            dir_entries(self.img(), self.geo(), inr.0) matches Ok(es) ==> (find_entry(es, name@)
                matches Some(n) ==> r == Ok::<InodeNum, UfsError>(InodeNum(n))),
            dir_entries(self.img(), self.geo(), inr.0) matches Ok(es) ==> (find_entry(es, name@)
                is None ==> r == Err::<InodeNum, UfsError>(UfsError::NotFound)),
    {
        let entries = match self.dir_iter(inr) {
            Ok(v) => v,
            Err(e) => {
                return Err(e);
            },
        };
        let ghost es = dir_entries(self.img(), self.geo(), inr.0)->Ok_0;
        proof {
            assert(es.skip(0) =~= es);
        }
        let mut i: usize = 0;
        while i < entries.len()
            invariant
                dir_entries(self.img(), self.geo(), inr.0) == Ok::<
                    Seq<(u64, InodeType, Seq<u8>)>,
                    UfsError,
                >(es),
                i <= entries@.len(),
                entries@.len() == es.len(),
                forall|q: int| 0 <= q < es.len() ==> entries@[q]@ == es[q],
                find_entry(es, name@) == find_entry(es.skip(i as int), name@),
            decreases entries@.len() - i,
        {
            proof {
                assert(es.skip(i as int)[0] == es[i as int]);
                assert(es.skip(i as int).drop_first() =~= es.skip(i as int + 1));
            }
            if bytes_equal(&entries[i].name, name) {
                return Ok(entries[i].inr);
            }
            i = i + 1;
        }
        proof {
            assert(es.skip(es.len() as int).len() == 0);
        }
        Err(UfsError::NotFound)
    }

    /// Resolves an absolute path, splitting it into components and looking
    /// each up in turn, starting from the well-known root inode. Empty
    /// components (repeated or trailing separators) are skipped. A path
    /// that is not absolute is refused before any decoding.
    pub fn path_lookup(&self, path: &[u8]) -> (r: Result<InodeNum, UfsError>)
        requires
            self.wf(),
        ensures
            path@.len() == 0 || path@[0] != 47u8 ==> r == Err::<InodeNum, UfsError>(
                UfsError::InvalidInput,
            ),
            path@.len() > 0 && path@[0] == 47u8 ==> (resolve_path(
                self.img(),
                self.geo(),
                2,
                path@,
            ) matches Ok(n) ==> r == Ok::<InodeNum, UfsError>(InodeNum(n))),
            path@.len() > 0 && path@[0] == 47u8 ==> (resolve_path(
                self.img(),
                self.geo(),
                2,
                path@,
            ) matches Err(e) ==> r == Err::<InodeNum, UfsError>(e)),
    {
        let ghost img = self.img();
        let ghost geo = self.geo();
        if path.len() == 0 || path[0] != 47u8 {
            return Err(UfsError::InvalidInput);
        }
        let mut cur = InodeNum::root();
        let mut pos: usize = 0;
        proof {
            assert(path@.skip(0) =~= path@);
        }
        while pos < path.len()
            invariant
                self.wf(),
                img == self.img(),
                geo == self.geo(),
                path@.len() > 0 && path@[0] == 47u8,
                pos <= path@.len(),
                resolve_path(img, geo, 2, path@) == resolve_path(
                    img,
                    geo,
                    cur.0,
                    path@.skip(pos as int),
                ),
            decreases path@.len() - pos,
        {
            if path[pos] == 47u8 {
                proof {
                    assert(path@.skip(pos as int).drop_first() =~= path@.skip(pos as int + 1));
                }
                pos = pos + 1;
                continue ;
            }
            let start = pos;
            let mut end = pos;
            while end < path.len() && path[end] != 47u8
                invariant
                    start <= end <= path@.len(),
                    forall|j: int| start <= j < end ==> path@[j] != 47u8,
                decreases path@.len() - end,
            {
                end = end + 1;
            }
            let mut comp: Vec<u8> = Vec::new();
            let mut k: usize = start;
            while k < end
                invariant
                    start <= k <= end <= path@.len(),
                    comp@ == path@.subrange(start as int, k as int),
                decreases end - k,
            {
                comp.push(path[k]);
                k = k + 1;
                proof {
                    assert(comp@ =~= path@.subrange(start as int, k as int));
                }
            }
            proof {
                let p = path@.skip(start as int);
                lemma_first_sep_value(p, end - start);
                assert(first_sep_clipped(p) == end - start);
                assert(comp@ =~= p.subrange(0, end - start));
                assert(p.skip(end - start) =~= path@.skip(end as int));
            }
            let nxt = match self.dir_lookup(cur, comp.as_slice()) {
                Ok(n) => n,
                Err(e) => {
                    return Err(e);
                },
            };
            cur = nxt;
            pos = end;
        }
        proof {
            assert(path@.skip(path@.len() as int).len() == 0);
        }
        Ok(cur)
    }

    /// Materializes the target of the symlink at `inr`. A target within the
    /// inline threshold is embedded in the record's pointer area and is
    /// returned without any data-block read; a longer target is read from
    /// the link's data blocks like file content. A declared target longer
    /// than the longest possible path is corrupt.
    pub fn symlink_read(&self, inr: InodeNum) -> (r: Result<Vec<u8>, UfsError>)
        requires
            self.wf(),
        ensures
            !self.valid_inr(inr) ==> r == Err::<Vec<u8>, UfsError>(UfsError::NotFound),
            self.valid_inr(inr) && kind_from_mode(ino_mode(self.img(), self.geo().ino_off(inr.0)))
                != InodeType::Symlink ==> r == Err::<Vec<u8>, UfsError>(UfsError::InvalidInput),
            self.valid_inr(inr) && kind_from_mode(ino_mode(self.img(), self.geo().ino_off(inr.0)))
                == InodeType::Symlink && ino_size(
                self.img(),
                self.geo().ino_off(inr.0),
                self.geo().ufs2,
            ) <= inline_threshold(self.geo().ufs2) ==> (r matches Ok(v) && v@.len() == ino_size(
                self.img(),
                self.geo().ino_off(inr.0),
                self.geo().ufs2,
            ) && v@ == self.img().subrange(
                self.geo().ino_off(inr.0) + ino_inline_off(self.geo().ufs2),
                self.geo().ino_off(inr.0) + ino_inline_off(self.geo().ufs2) + ino_size(
                    self.img(),
                    self.geo().ino_off(inr.0),
                    self.geo().ufs2,
                ),
            )),
            self.valid_inr(inr) && kind_from_mode(ino_mode(self.img(), self.geo().ino_off(inr.0)))
                == InodeType::Symlink && ino_size(
                self.img(),
                self.geo().ino_off(inr.0),
                self.geo().ufs2,
            ) > 1024 ==> r == Err::<Vec<u8>, UfsError>(UfsError::Corrupt),
            self.valid_inr(inr) && kind_from_mode(ino_mode(self.img(), self.geo().ino_off(inr.0)))
                == InodeType::Symlink && inline_threshold(self.geo().ufs2) < ino_size(
                self.img(),
                self.geo().ino_off(inr.0),
                self.geo().ufs2,
            ) <= 1024 ==> (r is Ok <==> read_ok(
                self.img(),
                self.geo(),
                inr.0,
                0,
                ino_size(self.img(), self.geo().ino_off(inr.0), self.geo().ufs2) as int,
            )),
            self.valid_inr(inr) && kind_from_mode(ino_mode(self.img(), self.geo().ino_off(inr.0)))
                == InodeType::Symlink && inline_threshold(self.geo().ufs2) < ino_size(
                self.img(),
                self.geo().ino_off(inr.0),
                self.geo().ufs2,
            ) <= 1024 ==> (r matches Ok(v) ==> v@.len() == ino_size(
                self.img(),
                self.geo().ino_off(inr.0),
                self.geo().ufs2,
            ) && forall|k: int|
                0 <= k < v@.len() ==> v@[k] == file_byte(self.img(), self.geo(), inr.0, k)),
    {
        let ino = match self.read_inode(inr) {
            Ok(v) => v,
            Err(e) => {
                return Err(e);
            },
        };
        if kind_of_mode(ino.mode) != InodeType::Symlink {
            return Err(UfsError::InvalidInput);
        }
        let ufs2 = self.br.sb.ufs2;
        let threshold: u64 = if ufs2 {
            120
        } else {
            60
        };
        let size = ino.size;
        if size <= threshold {
            let o = self.rec_off(inr);
            let ioff: u64 = if ufs2 {
                112
            } else {
                40
            };
            match self.br.read_bytes(o + ioff, size) {
                Ok(v) => Ok(v),
                Err(_) => vstd::pervasive::unreached(),
            }
        } else if size > 1024 {
            Err(UfsError::Corrupt)
        } else {
            let mut buf: Vec<u8> = Vec::new();
            let mut k: u64 = 0;
            while k < size
                invariant
                    k <= size,
                    buf@.len() == k,
                decreases size - k,
            {
                buf.push(0u8);
                k = k + 1;
            }
            match self.inode_read(inr, 0, &mut buf) {
                Ok(_) => Ok(buf),
                Err(e) => Err(e),
            }
        }
    }

    /// Resolves the record of `inr` and returns its attribute projection.
    /// Succeeds for exactly the valid inode numbers; everything else is
    /// `NotFound`.
    pub fn inode_attr(&self, inr: InodeNum) -> (r: Result<InodeAttr, UfsError>)
        requires
            self.wf(),
        ensures
            r is Ok <==> self.valid_inr(inr),
            r matches Err(e) ==> e == UfsError::NotFound,
            r matches Ok(a) ==> a.size as nat == ino_size(
                self.img(),
                self.geo().ino_off(inr.0),
                self.geo().ufs2,
            ),
            r matches Ok(a) ==> a.kind == kind_from_mode(
                ino_mode(self.img(), self.geo().ino_off(inr.0)),
            ),
            r matches Ok(a) ==> a.perm as nat == ino_mode(
                self.img(),
                self.geo().ino_off(inr.0),
            ) % 4096,
            r matches Ok(a) ==> a.nlink as nat == ino_nlink(self.img(), self.geo().ino_off(inr.0)),
            r matches Ok(a) ==> a.uid as nat == ino_uid(
                self.img(),
                self.geo().ino_off(inr.0),
                self.geo().ufs2,
            ),
            r matches Ok(a) ==> a.gid as nat == ino_gid(
                self.img(),
                self.geo().ino_off(inr.0),
                self.geo().ufs2,
            ),
            r matches Ok(a) ==> a.atime as nat == ino_atime(
                self.img(),
                self.geo().ino_off(inr.0),
                self.geo().ufs2,
            ),
            r matches Ok(a) ==> a.mtime as nat == ino_mtime(
                self.img(),
                self.geo().ino_off(inr.0),
                self.geo().ufs2,
            ),
            r matches Ok(a) ==> a.ctime as nat == ino_ctime(
                self.img(),
                self.geo().ino_off(inr.0),
                self.geo().ufs2,
            ),
    {
        let ino = match self.read_inode(inr) {
            Ok(ino) => ino,
            Err(e) => {
                return Err(e);
            },
        };
        Ok(ino.attr())
    }
}

} // verus!
